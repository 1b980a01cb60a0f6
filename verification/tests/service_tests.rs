use emos::process::context::ContextManager;
use emos::process::pcb::{CpuRegisters, ProcessError, ProcessPriority, ProcessState};
use emos::services::process_service::{
    block_current_process, create_process, get_current_process, get_process_count,
    get_process_stats, get_system_stats, init_process_service, list_processes,
    schedule_next_process, set_process_priority, terminate_process, unblock_process,
    ProcessService, KERNEL_HEAP_SIZE, KERNEL_PID, KERNEL_STACK_SIZE,
};

fn spawn(service: &mut ProcessService, name: &str) -> u64 {
    service.create_process(name.to_string(), ProcessPriority::Normal, 4096, 8192).unwrap()
}

#[test]
fn service_issues_strictly_increasing_pids() {
    let mut service = ProcessService::new();
    let mut issued = Vec::new();
    for _ in 0..50 {
        issued.push(spawn(&mut service, "worker"));
    }
    for pair in issued.windows(2) {
        assert!(pair[0] < pair[1]);
    }
    assert_eq!(issued[0], 1);
    assert_eq!(issued[49], 50);
}

#[test]
fn service_pids_keep_increasing_across_other_operations() {
    let mut service = ProcessService::new();
    let mut context = ContextManager::new();
    service.init();
    let a = spawn(&mut service, "a");
    service.terminate_process(a, 0).unwrap();
    let b = spawn(&mut service, "b");
    service.schedule_next(&mut context);
    service.block_current_process().unwrap();
    let c = spawn(&mut service, "c");
    service.unblock_process(b).unwrap();
    let d = spawn(&mut service, "d");
    assert_eq!((a, b, c, d), (1, 2, 3, 4));
}

#[test]
fn service_created_process_is_ready_with_summed_footprint() {
    let mut service = ProcessService::new();
    let pid = service
        .create_process("shell".to_string(), ProcessPriority::High, 4096, 8192)
        .unwrap();
    let pcb = service.get_process(pid).unwrap();
    assert_eq!(pcb.pid, 1);
    assert_eq!(pcb.parent_pid, None);
    assert_eq!(pcb.name, "shell");
    assert_eq!(pcb.state, ProcessState::Ready);
    assert_eq!(pcb.priority, ProcessPriority::High);
    assert_eq!(pcb.registers, CpuRegisters::default());
    assert_eq!(pcb.memory_usage, 4096 + 8192);
    assert_eq!(pcb.stack_size, 4096);
    assert_eq!(pcb.heap_size, 8192);
    assert_eq!(pcb.exit_code, None);
    assert_eq!(pcb.working_directory, "/");
    assert_eq!(pcb.page_table, None);
    assert!(pcb.capabilities.is_empty());
    assert!(pcb.open_files.is_empty());
    assert_eq!(pcb.creation_time, 0);
    assert_eq!(pcb.cpu_time, 0);
}

#[test]
fn service_places_stacks_downwards_and_heaps_upwards() {
    let mut service = ProcessService::new();
    service.init();
    let a = service.create_process("a".to_string(), ProcessPriority::Low, 0x2000, 0x2000).unwrap();
    let b = service.create_process("b".to_string(), ProcessPriority::Low, 0x1000, 0x1000).unwrap();
    let c = service
        .create_process("c".to_string(), ProcessPriority::Low, 0x100_0000, 0x800_0000)
        .unwrap();
    assert_eq!((a, b, c), (1, 2, 3));
    let expected = [
        (0x7FFF_FFFF_F000u64 - 0x2000, 0x1100_0000u64),
        (0x7FFF_FFFF_F000 - 0x3000, 0x1100_2000),
        (0x7FFF_FFFF_F000 - 0x100_3000, 0x1100_3000),
    ];
    for (index, (stack_pointer, heap_start)) in expected.iter().enumerate() {
        let pcb = service.get_process(index as u64 + 1).unwrap();
        assert_eq!(pcb.stack_pointer, *stack_pointer);
        assert_eq!(pcb.heap_start, *heap_start);
    }
    for p in 0..=3u64 {
        for q in 0..=3u64 {
            if p == q {
                continue;
            }
            let x = service.get_process(p).unwrap();
            let y = service.get_process(q).unwrap();
            let apart = |a: u64, a_size: usize, b: u64, b_size: usize| {
                a + a_size as u64 <= b || b + b_size as u64 <= a
            };
            assert!(apart(x.stack_pointer, x.stack_size, y.stack_pointer, y.stack_size));
            assert!(apart(x.heap_start, x.heap_size, y.heap_start, y.heap_size));
            assert!(apart(x.stack_pointer, x.stack_size, y.heap_start, y.heap_size));
        }
    }
}

#[test]
fn service_creates_processes_of_any_size_that_memory_can_hold() {
    let mut service = ProcessService::new();
    let big = |service: &mut ProcessService, stack_size: usize, heap_size: usize| {
        service.create_process("big".to_string(), ProcessPriority::Normal, stack_size, heap_size)
    };
    assert_eq!(big(&mut service, 4096, 0x800_0000), Ok(1));
    assert_eq!(big(&mut service, 0x100_0000, 4096), Ok(2));
    assert_eq!(big(&mut service, 0x10_0000_0000, 0x100_0000_0000), Ok(3));
    let pcb = service.get_process(3).unwrap();
    assert_eq!(pcb.memory_usage, 0x110_0000_0000);
    assert_eq!(pcb.state, ProcessState::Ready);
    assert_eq!(service.get_process_count(), 3);
}

#[test]
fn service_create_fails_only_when_memory_is_used_up() {
    let mut service = ProcessService::new();
    let all = (0x7FFF_FFFF_F000u64 - 0x1100_0000) as usize;
    let sized = |service: &mut ProcessService, stack_size: usize, heap_size: usize| {
        service.create_process("p".to_string(), ProcessPriority::Normal, stack_size, heap_size)
    };
    assert_eq!(sized(&mut service, all, 1), Err(ProcessError::InsufficientMemory));
    assert_eq!(service.get_process_count(), 0);
    // The pid was not used up, nor any memory.
    assert_eq!(sized(&mut service, all - 64, 64), Ok(1));
    assert_eq!(service.get_process(1).unwrap().stack_pointer, 0x1100_0040);
    assert_eq!(service.get_process(1).unwrap().heap_start, 0x1100_0000);
    assert_eq!(sized(&mut service, 0, 1), Err(ProcessError::InsufficientMemory));
    assert_eq!(sized(&mut service, 0, 0), Ok(2));
}

#[test]
fn service_rejects_sizes_that_overflow() {
    let mut service = ProcessService::new();
    let result = service.create_process("big".to_string(), ProcessPriority::Normal, usize::MAX, 1);
    assert_eq!(result, Err(ProcessError::InsufficientMemory));
    let result = service.create_process("big".to_string(), ProcessPriority::Normal, 1, usize::MAX);
    assert_eq!(result, Err(ProcessError::InsufficientMemory));
    assert_eq!(service.get_process_count(), 0);
}

#[test]
fn service_init_creates_the_kernel_process() {
    let mut service = ProcessService::new();
    service.init();
    assert_eq!(service.get_current_process(), Some(0));
    assert_eq!(service.get_process_count(), 1);
    let kernel = service.get_process(KERNEL_PID).unwrap();
    assert_eq!(kernel.pid, 0);
    assert_eq!(kernel.parent_pid, None);
    assert_eq!(kernel.name, "kernel");
    assert_eq!(kernel.state, ProcessState::Running);
    assert_eq!(kernel.priority, ProcessPriority::Critical);
    assert_eq!(kernel.stack_pointer, 0xFFFF_8000_0000_0000);
    assert_eq!(kernel.stack_size, 0x10000);
    assert_eq!(kernel.stack_size, KERNEL_STACK_SIZE);
    assert_eq!(kernel.heap_start, 0x1000_0000);
    assert_eq!(kernel.heap_size, 0x1000000);
    assert_eq!(kernel.heap_size, KERNEL_HEAP_SIZE);
    assert_eq!(kernel.memory_usage, 0x10000);
    assert_eq!(kernel.exit_code, None);
    assert_eq!(kernel.working_directory, "/");
    // The first process after the kernel gets pid 1 and the kernel as parent.
    let child = spawn(&mut service, "child");
    assert_eq!(child, 1);
    assert_eq!(service.get_process(child).unwrap().parent_pid, Some(0));
}

#[test]
fn service_terminate_sets_state_and_exit_code() {
    let mut service = ProcessService::new();
    let pid = spawn(&mut service, "job");
    assert_eq!(service.terminate_process(pid, 42), Ok(()));
    let pcb = service.get_process(pid).unwrap();
    assert_eq!(pcb.state, ProcessState::Terminated);
    assert_eq!(pcb.exit_code, Some(42));
    assert_eq!(service.get_process_count(), 1);
    assert_eq!(service.terminate_process(500, 0), Err(ProcessError::ProcessNotFound));
}

#[test]
fn service_terminated_process_is_never_scheduled() {
    let mut service = ProcessService::new();
    let mut context = ContextManager::new();
    let a = spawn(&mut service, "a");
    let b = spawn(&mut service, "b");
    let c = spawn(&mut service, "c");
    service.terminate_process(a, 0).unwrap();
    assert_eq!(service.schedule_next(&mut context), Some(b));
    assert_eq!(service.schedule_next(&mut context), Some(c));
    assert_eq!(service.schedule_next(&mut context), Some(b));
    assert_eq!(service.schedule_next(&mut context), Some(c));
    assert_eq!(service.get_process(a).unwrap().state, ProcessState::Terminated);
}

#[test]
fn service_terminate_clears_current_process() {
    let mut service = ProcessService::new();
    service.init();
    assert_eq!(service.terminate_process(0, 1), Ok(()));
    assert_eq!(service.get_current_process(), None);
}

#[test]
fn service_schedule_switches_context_to_the_picked_process() {
    let mut service = ProcessService::new();
    let mut context = ContextManager::new();
    service.init();
    let a = spawn(&mut service, "a");
    let mut live = CpuRegisters::default();
    live.rax = 77;
    live.rip = 0x1234;
    context.set_registers(&live);
    assert_eq!(service.schedule_next(&mut context), Some(a));
    assert_eq!(service.get_current_process(), Some(a));
    assert_eq!(context.get_current_process(), Some(a));
    assert_eq!(service.get_process(a).unwrap().state, ProcessState::Running);
    // The kernel's registers were saved, those of the new process are live.
    assert_eq!(service.get_process(0).unwrap().registers, live);
    assert_eq!(context.get_current_registers(), CpuRegisters::default());
    // The process that was current is ready again: only one process runs.
    assert_eq!(service.get_process(0).unwrap().state, ProcessState::Ready);
    let stats = service.get_system_stats();
    assert_eq!(stats.running_processes, 1);
    assert_eq!(stats.ready_processes, 1);
}

#[test]
fn service_schedules_round_robin_with_the_yielding_process() {
    let mut service = ProcessService::new();
    let mut context = ContextManager::new();
    let a = spawn(&mut service, "a");
    let b = spawn(&mut service, "b");
    let c = spawn(&mut service, "c");
    for expected in [a, b, c, a, b, c, a] {
        assert_eq!(service.schedule_next(&mut context), Some(expected));
        assert_eq!(service.get_current_process(), Some(expected));
        assert_eq!(context.get_current_process(), Some(expected));
        let stats = service.get_system_stats();
        assert_eq!(stats.running_processes, 1);
        assert_eq!(stats.ready_processes, 2);
        assert_eq!(service.get_process(expected).unwrap().state, ProcessState::Running);
    }
}

#[test]
fn service_init_makes_the_current_process_ready() {
    let mut service = ProcessService::new();
    let mut context = ContextManager::new();
    let a = spawn(&mut service, "a");
    assert_eq!(service.schedule_next(&mut context), Some(a));
    service.init();
    assert_eq!(service.get_current_process(), Some(0));
    assert_eq!(service.get_process(a).unwrap().state, ProcessState::Ready);
    assert_eq!(service.get_process(0).unwrap().state, ProcessState::Running);
}

#[test]
fn service_schedule_without_ready_process_changes_nothing() {
    let mut service = ProcessService::new();
    let mut context = ContextManager::new();
    service.init();
    assert_eq!(service.schedule_next(&mut context), None);
    assert_eq!(service.get_current_process(), Some(0));
    assert_eq!(context.get_current_process(), None);
}

#[test]
fn service_block_and_unblock() {
    let mut service = ProcessService::new();
    assert_eq!(service.block_current_process(), Err(ProcessError::NoCurrentProcess));
    service.init();
    assert_eq!(service.block_current_process(), Ok(()));
    assert_eq!(service.get_current_process(), None);
    assert_eq!(service.get_process(0).unwrap().state, ProcessState::Blocked);
    assert_eq!(service.unblock_process(0), Ok(()));
    assert_eq!(service.get_process(0).unwrap().state, ProcessState::Ready);
    assert_eq!(service.unblock_process(0), Err(ProcessError::ProcessNotBlocked));
    assert_eq!(service.unblock_process(3), Err(ProcessError::ProcessNotFound));
}

#[test]
fn service_set_priority() {
    let mut service = ProcessService::new();
    let a = spawn(&mut service, "a");
    assert_eq!(service.set_priority(a, ProcessPriority::Critical), Ok(()));
    assert_eq!(service.get_process(a).unwrap().priority, ProcessPriority::Critical);
    assert_eq!(
        service.set_priority(9, ProcessPriority::Low),
        Err(ProcessError::ProcessNotFound)
    );
}

#[test]
fn service_process_stats_describe_the_process() {
    let mut service = ProcessService::new();
    let a = service.create_process("stat".to_string(), ProcessPriority::Low, 100, 200).unwrap();
    service.update_cpu_time(a, 15);
    let stats = service.get_process_stats(a).unwrap();
    assert_eq!(stats.pid, a);
    assert_eq!(stats.name, "stat");
    assert_eq!(stats.state, ProcessState::Ready);
    assert_eq!(stats.priority, ProcessPriority::Low);
    assert_eq!(stats.cpu_time, 15);
    assert_eq!(stats.memory_usage, 300);
    assert_eq!(stats.creation_time, 0);
    assert!(service.get_process_stats(77).is_none());
}

#[test]
fn service_system_stats_count_processes_by_state() {
    let mut service = ProcessService::new();
    let mut context = ContextManager::new();
    service.init();
    let a = spawn(&mut service, "a");
    let b = spawn(&mut service, "b");
    let _c = spawn(&mut service, "c");
    let _d = spawn(&mut service, "d");
    service.terminate_process(b, 0).unwrap();
    assert_eq!(service.schedule_next(&mut context), Some(a));
    service.block_current_process().unwrap();
    let stats = service.get_system_stats();
    assert_eq!(stats.total_processes, 5);
    assert_eq!(stats.running_processes, 0);
    assert_eq!(stats.ready_processes, 3);
    assert_eq!(stats.blocked_processes, 1);
    assert_eq!(stats.terminated_processes, 1);
    assert_eq!(stats.current_process, None);
    let empty = ProcessService::new().get_system_stats();
    assert_eq!(empty.total_processes, 0);
    assert_eq!(empty.ready_processes, 0);
}

#[test]
fn service_lists_processes_in_pid_order() {
    let mut service = ProcessService::new();
    service.init();
    let a = spawn(&mut service, "one");
    let b = spawn(&mut service, "two");
    service.terminate_process(a, 0).unwrap();
    assert_eq!(
        service.list_processes(),
        vec![
            (0, "kernel".to_string(), ProcessState::Running),
            (a, "one".to_string(), ProcessState::Terminated),
            (b, "two".to_string(), ProcessState::Ready),
        ]
    );
}

#[test]
fn service_functions_work_on_the_given_service() {
    let mut service = ProcessService::new();
    let mut context = ContextManager::new();
    init_process_service(&mut service);
    let a = create_process(&mut service, "a".to_string(), ProcessPriority::Normal, 64, 64).unwrap();
    assert_eq!(a, 1);
    assert_eq!(get_process_count(&service), 2);
    assert_eq!(set_process_priority(&mut service, a, ProcessPriority::High), Ok(()));
    assert_eq!(get_process_stats(&service, a).unwrap().priority, ProcessPriority::High);
    assert_eq!(schedule_next_process(&mut service, &mut context), Some(a));
    assert_eq!(get_current_process(&service), Some(a));
    assert_eq!(block_current_process(&mut service), Ok(()));
    assert_eq!(unblock_process(&mut service, a), Ok(()));
    assert_eq!(terminate_process(&mut service, a, 9), Ok(()));
    assert_eq!(get_system_stats(&service).terminated_processes, 1);
    assert_eq!(
        list_processes(&service),
        vec![
            (0, "kernel".to_string(), ProcessState::Ready),
            (1, "a".to_string(), ProcessState::Terminated),
        ]
    );
}
