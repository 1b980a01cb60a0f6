use emos::process::pcb::{
    block_current_process, create_process, get_current_process, get_next_process, list_processes,
    switch_to_process, terminate_process, unblock_process, CpuRegisters, ProcessError,
    ProcessManager, ProcessPriority, ProcessState, KERNEL_CODE_SELECTOR, KERNEL_DATA_SELECTOR,
    RFLAGS_INTERRUPTS_ENABLED, USER_HEAP_BASE, USER_STACK_TOP,
};

fn spawn_sized(
    manager: &mut ProcessManager,
    stack_size: usize,
    heap_size: usize,
) -> Result<u64, ProcessError> {
    manager.create_process("sized".to_string(), ProcessPriority::Normal, stack_size, heap_size)
}

fn spawn(manager: &mut ProcessManager, name: &str) -> u64 {
    manager.create_process(name.to_string(), ProcessPriority::Normal, 4096, 8192).unwrap()
}

#[test]
fn registry_issues_pids_from_one_upwards() {
    let mut manager = ProcessManager::new();
    let mut last = 0;
    for expected in 1..=20u64 {
        let pid = spawn(&mut manager, "worker");
        assert_eq!(pid, expected);
        assert!(pid > last);
        last = pid;
    }
    assert_eq!(manager.get_process_count(), 20);
}

#[test]
fn registry_never_reuses_the_pid_of_a_terminated_process() {
    let mut manager = ProcessManager::new();
    let first = spawn(&mut manager, "a");
    manager.terminate_process(first, 0).unwrap();
    let second = spawn(&mut manager, "b");
    assert_eq!(first, 1);
    assert_eq!(second, 2);
    assert_eq!(manager.get_process_count(), 2);
}

#[test]
fn registry_created_process_is_ready_with_summed_footprint() {
    let mut manager = ProcessManager::new();
    let pid = manager
        .create_process("init".to_string(), ProcessPriority::High, 4096, 8192)
        .unwrap();
    let pcb = manager.get_process(pid).unwrap();
    assert_eq!(pcb.pid, pid);
    assert_eq!(pcb.parent_pid, None);
    assert_eq!(pcb.name, "init");
    assert_eq!(pcb.state, ProcessState::Ready);
    assert_eq!(pcb.priority, ProcessPriority::High);
    assert_eq!(pcb.registers, CpuRegisters::default());
    assert_eq!(pcb.stack_pointer, 0x7FFF_FFFF_F000 - 4096);
    assert_eq!(pcb.stack_pointer, USER_STACK_TOP - 4096);
    assert_eq!(pcb.stack_size, 4096);
    assert_eq!(pcb.heap_start, 0x1000_0000);
    assert_eq!(pcb.heap_start, USER_HEAP_BASE);
    assert_eq!(pcb.heap_size, 8192);
    assert_eq!(pcb.page_table, None);
    assert!(pcb.capabilities.is_empty());
    assert!(pcb.open_files.is_empty());
    assert_eq!(pcb.working_directory, "/");
    assert_eq!(pcb.exit_code, None);
    assert_eq!(pcb.creation_time, 0);
    assert_eq!(pcb.cpu_time, 0);
    assert_eq!(pcb.memory_usage, 12288);
}

#[test]
fn registry_parent_is_the_current_process() {
    let mut manager = ProcessManager::new();
    let parent = spawn(&mut manager, "parent");
    manager.switch_to_process(parent).unwrap();
    let child = spawn(&mut manager, "child");
    assert_eq!(manager.get_process(child).unwrap().parent_pid, Some(parent));
}

#[test]
fn registry_places_stacks_downwards_and_heaps_upwards() {
    let mut manager = ProcessManager::new();
    let sizes = [(0x2000usize, 0x2000usize), (0x1000, 0x1000), (0x100_0000, 0x800_0000), (1, 1)];
    for (stack_size, heap_size) in sizes {
        manager
            .create_process("p".to_string(), ProcessPriority::Normal, stack_size, heap_size)
            .unwrap();
    }
    let expected = [
        (0x7FFF_FFFF_F000u64 - 0x2000, 0x1000_0000u64),
        (0x7FFF_FFFF_F000 - 0x3000, 0x1000_2000),
        (0x7FFF_FFFF_F000 - 0x100_3000, 0x1000_3000),
        (0x7FFF_FFFF_F000 - 0x100_3001, 0x1800_3000),
    ];
    for (index, (stack_pointer, heap_start)) in expected.iter().enumerate() {
        let pcb = manager.get_process(index as u64 + 1).unwrap();
        assert_eq!(pcb.stack_pointer, *stack_pointer);
        assert_eq!(pcb.heap_start, *heap_start);
    }
    for p in 1..=4u64 {
        for q in (p + 1)..=4u64 {
            let a = manager.get_process(p).unwrap();
            let b = manager.get_process(q).unwrap();
            assert!(b.stack_pointer + b.stack_size as u64 <= a.stack_pointer);
            assert!(a.heap_start + a.heap_size as u64 <= b.heap_start);
            assert!(a.heap_start + a.heap_size as u64 <= b.stack_pointer);
            assert!(b.heap_start + b.heap_size as u64 <= a.stack_pointer);
        }
    }
}

#[test]
fn registry_creates_processes_of_any_size_that_memory_can_hold() {
    let mut manager = ProcessManager::new();
    // A stack of 16 MiB, a heap of 128 MiB, a heap of 1 TiB.
    assert_eq!(spawn_sized(&mut manager, 0x100_0000, 16), Ok(1));
    assert_eq!(spawn_sized(&mut manager, 16, 0x800_0000), Ok(2));
    assert_eq!(spawn_sized(&mut manager, 0, 0x100_0000_0000), Ok(3));
    assert_eq!(manager.get_process(3).unwrap().memory_usage, 0x100_0000_0000);
    assert_eq!(manager.get_process(3).unwrap().state, ProcessState::Ready);
}

#[test]
fn registry_create_fails_only_when_memory_is_used_up() {
    let mut manager = ProcessManager::new();
    let all = (0x7FFF_FFFF_F000u64 - 0x1000_0000) as usize;
    assert_eq!(spawn_sized(&mut manager, 1, all), Err(ProcessError::InsufficientMemory));
    assert_eq!(spawn_sized(&mut manager, all + 1, 0), Err(ProcessError::InsufficientMemory));
    assert_eq!(manager.get_process_count(), 0);
    // A refused call uses up neither a pid nor memory.
    assert_eq!(spawn_sized(&mut manager, 0x1000, all - 0x1000), Ok(1));
    let pcb = manager.get_process(1).unwrap();
    assert_eq!(pcb.stack_pointer, 0x7FFF_FFFF_E000);
    assert_eq!(pcb.heap_start, 0x1000_0000);
    assert_eq!(pcb.heap_start + pcb.heap_size as u64, pcb.stack_pointer);
    // Nothing is left but room for a process without memory.
    assert_eq!(spawn_sized(&mut manager, 1, 0), Err(ProcessError::InsufficientMemory));
    assert_eq!(spawn_sized(&mut manager, 0, 1), Err(ProcessError::InsufficientMemory));
    assert_eq!(spawn_sized(&mut manager, 0, 0), Ok(2));
}

#[test]
fn registry_switch_makes_the_previous_process_ready() {
    let mut manager = ProcessManager::new();
    let a = spawn(&mut manager, "a");
    let b = spawn(&mut manager, "b");
    manager.switch_to_process(a).unwrap();
    manager.switch_to_process(b).unwrap();
    assert_eq!(manager.get_process(a).unwrap().state, ProcessState::Ready);
    assert_eq!(manager.get_process(b).unwrap().state, ProcessState::Running);
    assert_eq!(manager.get_current_process(), Some(b));
    manager.switch_to_process(b).unwrap();
    assert_eq!(manager.get_process(b).unwrap().state, ProcessState::Running);
    assert_eq!(manager.switch_to_process(99), Err(ProcessError::ProcessNotFound));
    assert_eq!(manager.get_process(b).unwrap().state, ProcessState::Running);
}

#[test]
fn registry_create_rejects_sizes_that_overflow() {
    let mut manager = ProcessManager::new();
    let result = manager.create_process("big".to_string(), ProcessPriority::Low, usize::MAX, 1);
    assert_eq!(result, Err(ProcessError::InsufficientMemory));
    assert_eq!(manager.get_process_count(), 0);
    assert_eq!(manager.get_next_process(), None);
    assert_eq!(spawn(&mut manager, "small"), 1);
}

#[test]
fn default_registers_enable_interrupts_and_use_kernel_segments() {
    let regs = CpuRegisters::default();
    assert_eq!(regs.rflags, 0x202);
    assert_eq!(regs.cs, 0x08);
    assert_eq!(regs.ss, 0x10);
    assert_eq!(regs.ds, 0x10);
    assert_eq!(regs.es, 0x10);
    assert_eq!(regs.fs, 0x10);
    assert_eq!(regs.gs, 0x10);
    assert_eq!(regs.rax, 0);
    assert_eq!(regs.rsp, 0);
    assert_eq!(regs.rip, 0);
    assert_eq!(regs.r15, 0);
    assert_eq!(RFLAGS_INTERRUPTS_ENABLED, 0x202);
    assert_eq!(KERNEL_CODE_SELECTOR, 0x08);
    assert_eq!(KERNEL_DATA_SELECTOR, 0x10);
}

#[test]
fn registry_terminate_records_exit_code_and_keeps_the_block() {
    let mut manager = ProcessManager::new();
    let pid = spawn(&mut manager, "job");
    assert_eq!(manager.terminate_process(pid, 7), Ok(()));
    let pcb = manager.get_process(pid).unwrap();
    assert_eq!(pcb.state, ProcessState::Terminated);
    assert_eq!(pcb.exit_code, Some(7));
    assert_eq!(manager.get_process_count(), 1);
}

#[test]
fn registry_terminate_unknown_pid_fails() {
    let mut manager = ProcessManager::new();
    spawn(&mut manager, "job");
    assert_eq!(manager.terminate_process(99, 0), Err(ProcessError::ProcessNotFound));
    assert_eq!(manager.get_process(1).unwrap().state, ProcessState::Ready);
}

#[test]
fn registry_terminate_again_replaces_the_exit_code() {
    let mut manager = ProcessManager::new();
    let pid = spawn(&mut manager, "job");
    manager.terminate_process(pid, 1).unwrap();
    assert_eq!(manager.terminate_process(pid, -3), Ok(()));
    let pcb = manager.get_process(pid).unwrap();
    assert_eq!(pcb.state, ProcessState::Terminated);
    assert_eq!(pcb.exit_code, Some(-3));
}

#[test]
fn registry_terminate_removes_from_ready_queue() {
    let mut manager = ProcessManager::new();
    let a = spawn(&mut manager, "a");
    let b = spawn(&mut manager, "b");
    let c = spawn(&mut manager, "c");
    manager.terminate_process(b, 0).unwrap();
    assert_eq!(manager.get_next_process(), Some(a));
    assert_eq!(manager.get_next_process(), Some(c));
    assert_eq!(manager.get_next_process(), Some(a));
    assert_eq!(manager.get_next_process(), Some(c));
}

#[test]
fn registry_terminate_clears_current_process() {
    let mut manager = ProcessManager::new();
    let a = spawn(&mut manager, "a");
    let b = spawn(&mut manager, "b");
    manager.switch_to_process(a).unwrap();
    manager.terminate_process(b, 0).unwrap();
    assert_eq!(manager.get_current_process(), Some(a));
    manager.terminate_process(a, 0).unwrap();
    assert_eq!(manager.get_current_process(), None);
}

#[test]
fn registry_next_process_rotates_the_ready_queue() {
    let mut manager = ProcessManager::new();
    assert_eq!(manager.get_next_process(), None);
    let a = spawn(&mut manager, "a");
    let b = spawn(&mut manager, "b");
    let c = spawn(&mut manager, "c");
    assert_eq!(manager.get_next_process(), Some(a));
    assert_eq!(manager.get_next_process(), Some(b));
    assert_eq!(manager.get_next_process(), Some(c));
    assert_eq!(manager.get_next_process(), Some(a));
}

#[test]
fn registry_switch_marks_running_and_current() {
    let mut manager = ProcessManager::new();
    let a = spawn(&mut manager, "a");
    assert_eq!(manager.get_current_process(), None);
    assert_eq!(manager.switch_to_process(a), Ok(()));
    assert_eq!(manager.get_current_process(), Some(a));
    assert_eq!(manager.get_process(a).unwrap().state, ProcessState::Running);
    assert_eq!(manager.switch_to_process(42), Err(ProcessError::ProcessNotFound));
    assert_eq!(manager.get_current_process(), Some(a));
}

#[test]
fn registry_switch_to_terminated_process_fails() {
    let mut manager = ProcessManager::new();
    let a = spawn(&mut manager, "a");
    manager.terminate_process(a, 5).unwrap();
    assert_eq!(manager.switch_to_process(a), Err(ProcessError::ProcessNotFound));
    assert_eq!(manager.get_current_process(), None);
    let pcb = manager.get_process(a).unwrap();
    assert_eq!(pcb.state, ProcessState::Terminated);
    assert_eq!(pcb.exit_code, Some(5));
}

#[test]
fn registry_block_and_unblock() {
    let mut manager = ProcessManager::new();
    assert_eq!(manager.block_current_process(), Err(ProcessError::NoCurrentProcess));
    let a = spawn(&mut manager, "a");
    manager.switch_to_process(a).unwrap();
    assert_eq!(manager.block_current_process(), Ok(()));
    assert_eq!(manager.get_current_process(), None);
    assert_eq!(manager.get_process(a).unwrap().state, ProcessState::Blocked);
    assert_eq!(manager.unblock_process(a), Ok(()));
    assert_eq!(manager.get_process(a).unwrap().state, ProcessState::Ready);
    assert_eq!(manager.unblock_process(a), Err(ProcessError::ProcessNotBlocked));
    assert_eq!(manager.unblock_process(77), Err(ProcessError::ProcessNotFound));
}

#[test]
fn registry_unblock_queues_the_process_at_the_end() {
    let mut manager = ProcessManager::new();
    let a = spawn(&mut manager, "a");
    let b = spawn(&mut manager, "b");
    manager.switch_to_process(a).unwrap();
    manager.block_current_process().unwrap();
    manager.unblock_process(a).unwrap();
    // a was queued when it was created and again when it was unblocked.
    assert_eq!(manager.get_next_process(), Some(a));
    assert_eq!(manager.get_next_process(), Some(b));
    assert_eq!(manager.get_next_process(), Some(a));
    assert_eq!(manager.get_next_process(), Some(a));
}

#[test]
fn registry_unblock_of_terminated_process_fails() {
    let mut manager = ProcessManager::new();
    let a = spawn(&mut manager, "a");
    manager.switch_to_process(a).unwrap();
    manager.block_current_process().unwrap();
    manager.terminate_process(a, 0).unwrap();
    assert_eq!(manager.unblock_process(a), Err(ProcessError::ProcessNotBlocked));
    assert_eq!(manager.get_process(a).unwrap().state, ProcessState::Terminated);
    assert_eq!(manager.get_next_process(), None);
}

#[test]
fn registry_lists_processes_in_pid_order() {
    let mut manager = ProcessManager::new();
    let a = spawn(&mut manager, "alpha");
    let b = spawn(&mut manager, "beta");
    let c = spawn(&mut manager, "gamma");
    manager.switch_to_process(b).unwrap();
    manager.terminate_process(c, 0).unwrap();
    let listing = manager.list_processes();
    assert_eq!(
        listing,
        vec![
            (a, "alpha".to_string(), ProcessState::Ready),
            (b, "beta".to_string(), ProcessState::Running),
            (c, "gamma".to_string(), ProcessState::Terminated),
        ]
    );
    assert!(ProcessManager::new().list_processes().is_empty());
}

#[test]
fn registry_update_cpu_time_adds_up() {
    let mut manager = ProcessManager::new();
    let a = spawn(&mut manager, "a");
    manager.update_cpu_time(a, 5);
    manager.update_cpu_time(a, 7);
    manager.update_cpu_time(1234, 9);
    assert_eq!(manager.get_process(a).unwrap().cpu_time, 12);
    assert!(manager.get_process(1234).is_none());
}

#[test]
fn registry_functions_work_on_the_given_registry() {
    let mut manager = ProcessManager::new();
    let a = create_process(&mut manager, "a".to_string(), ProcessPriority::Low, 16, 32).unwrap();
    let b = create_process(&mut manager, "b".to_string(), ProcessPriority::Low, 16, 32).unwrap();
    assert_eq!((a, b), (1, 2));
    assert_eq!(get_next_process(&mut manager), Some(a));
    assert_eq!(switch_to_process(&mut manager, a), Ok(()));
    assert_eq!(get_current_process(&manager), Some(a));
    assert_eq!(block_current_process(&mut manager), Ok(()));
    assert_eq!(unblock_process(&mut manager, a), Ok(()));
    assert_eq!(terminate_process(&mut manager, b, 3), Ok(()));
    assert_eq!(
        list_processes(&manager),
        vec![
            (a, "a".to_string(), ProcessState::Ready),
            (b, "b".to_string(), ProcessState::Terminated),
        ]
    );
}

#[test]
fn priority_codes_and_levels() {
    assert_eq!(ProcessPriority::from_code(0), ProcessPriority::Low);
    assert_eq!(ProcessPriority::from_code(1), ProcessPriority::Normal);
    assert_eq!(ProcessPriority::from_code(2), ProcessPriority::High);
    assert_eq!(ProcessPriority::from_code(3), ProcessPriority::Critical);
    assert_eq!(ProcessPriority::from_code(4), ProcessPriority::Normal);
    assert_eq!(ProcessPriority::from_code(u64::MAX), ProcessPriority::Normal);
    assert_eq!(ProcessPriority::Low.rank(), 0);
    assert_eq!(ProcessPriority::Normal.rank(), 1);
    assert_eq!(ProcessPriority::High.rank(), 2);
    assert_eq!(ProcessPriority::Critical.rank(), 3);
    assert!(ProcessPriority::Critical > ProcessPriority::High);
    assert!(ProcessPriority::High > ProcessPriority::Normal);
    assert!(ProcessPriority::Normal > ProcessPriority::Low);
}
