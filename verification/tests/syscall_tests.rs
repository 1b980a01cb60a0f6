use emos::process::context::ContextManager;
use emos::process::pcb::{ProcessPriority, ProcessState};
use emos::services::process_service::ProcessService;
use emos::syscalls::{
    handle_syscall, syscall_allocate_memory, syscall_create_process, syscall_deallocate_memory,
    syscall_exit_process, syscall_get_pid, syscall_map_memory, syscall_receive_message,
    syscall_send_message, syscall_unmap_memory, syscall_yield, SyscallArgs, SyscallError,
    SyscallNumber, SyscallResult, ERROR_FLAG,
};

fn args(values: [u64; 6]) -> SyscallArgs {
    SyscallArgs {
        arg0: values[0],
        arg1: values[1],
        arg2: values[2],
        arg3: values[3],
        arg4: values[4],
        arg5: values[5],
    }
}

fn no_args() -> SyscallArgs {
    args([0; 6])
}

fn service_with_current(pid: u64) -> ProcessService {
    let mut service = ProcessService::new();
    let mut context = ContextManager::new();
    for _ in 0..pid {
        service.create_process("p".to_string(), ProcessPriority::Normal, 64, 64).unwrap();
    }
    for _ in 0..pid {
        service.schedule_next(&mut context);
    }
    assert_eq!(service.get_current_process(), Some(pid));
    service
}

#[test]
fn unknown_syscall_number_is_an_invalid_syscall() {
    let mut service = ProcessService::new();
    let mut context = ContextManager::new();
    let result = handle_syscall(&mut service, &mut context, 99, args([1, 2, 3, 4, 5, 6]), &[]);
    assert_eq!(result, SyscallResult::Error(SyscallError::InvalidSyscall));
    let encoded = u64::from(result);
    assert_eq!(encoded, 0x8000_0000_0000_0000);
    assert_eq!(encoded >> 63, 1);
    assert_eq!(encoded & 0x7FFF_FFFF_FFFF_FFFF, 0);
    let result = handle_syscall(&mut service, &mut context, 10, no_args(), &[]);
    assert_eq!(result, SyscallResult::Error(SyscallError::InvalidSyscall));
    let result = handle_syscall(&mut service, &mut context, u64::MAX, no_args(), &[]);
    assert_eq!(result, SyscallResult::Error(SyscallError::InvalidSyscall));
    assert_eq!(service.get_process_count(), 0);
}

#[test]
fn get_pid_without_current_process_fails() {
    let mut service = ProcessService::new();
    let mut context = ContextManager::new();
    let result = handle_syscall(&mut service, &mut context, 7, no_args(), &[]);
    assert_eq!(result, SyscallResult::Error(SyscallError::NoCurrentProcess));
    assert_eq!(u64::from(result), 0x8000_0000_0000_000A);
}

#[test]
fn get_pid_returns_the_current_pid() {
    let mut service = service_with_current(5);
    let mut context = ContextManager::new();
    let result = handle_syscall(&mut service, &mut context, 7, args([9, 9, 9, 9, 9, 9]), &[]);
    assert_eq!(result, SyscallResult::Success(5));
    assert_eq!(u64::from(result), 5);
    assert_eq!(syscall_get_pid(&service, no_args()), SyscallResult::Success(5));
}

#[test]
fn error_codes_follow_the_fixed_order() {
    let errors = [
        SyscallError::InvalidSyscall,
        SyscallError::InvalidArgument,
        SyscallError::PermissionDenied,
        SyscallError::OutOfMemory,
        SyscallError::ProcessNotFound,
        SyscallError::InvalidProcessId,
        SyscallError::MessageQueueFull,
        SyscallError::NoMessageAvailable,
        SyscallError::InvalidMemoryRegion,
        SyscallError::CapabilityDenied,
        SyscallError::NoCurrentProcess,
    ];
    for (index, error) in errors.iter().enumerate() {
        assert_eq!(error.error_code(), index as u64);
        let encoded = u64::from(SyscallResult::Error(*error));
        assert_eq!(encoded, 0x8000_0000_0000_0000 | index as u64);
        assert_eq!(encoded & ERROR_FLAG, ERROR_FLAG);
        assert_eq!(encoded & !ERROR_FLAG, index as u64);
    }
}

#[test]
fn success_values_are_encoded_as_they_are() {
    assert_eq!(u64::from(SyscallResult::Success(0)), 0);
    assert_eq!(u64::from(SyscallResult::Success(12345)), 12345);
    assert_eq!(u64::from(SyscallResult::Success(0x7FFF_FFFF_FFFF_FFFF)), 0x7FFF_FFFF_FFFF_FFFF);
    let value: u64 = SyscallResult::Success(3).into();
    assert_eq!(value, 3);
}

#[test]
fn error_messages() {
    assert_eq!(SyscallError::InvalidSyscall.message(), "Invalid syscall number");
    assert_eq!(SyscallError::InvalidArgument.message(), "Invalid argument");
    assert_eq!(SyscallError::PermissionDenied.message(), "Permission denied");
    assert_eq!(SyscallError::OutOfMemory.message(), "Out of memory");
    assert_eq!(SyscallError::ProcessNotFound.message(), "Process not found");
    assert_eq!(SyscallError::InvalidProcessId.message(), "Invalid process ID");
    assert_eq!(SyscallError::MessageQueueFull.message(), "Message queue full");
    assert_eq!(SyscallError::NoMessageAvailable.message(), "No message available");
    assert_eq!(SyscallError::InvalidMemoryRegion.message(), "Invalid memory region");
    assert_eq!(SyscallError::CapabilityDenied.message(), "Capability denied");
    assert_eq!(SyscallError::NoCurrentProcess.message(), "No current process");
}

#[test]
fn syscall_numbers_run_from_zero_to_nine() {
    let calls = [
        SyscallNumber::SendMessage,
        SyscallNumber::ReceiveMessage,
        SyscallNumber::AllocateMemory,
        SyscallNumber::DeallocateMemory,
        SyscallNumber::CreateProcess,
        SyscallNumber::ExitProcess,
        SyscallNumber::Yield,
        SyscallNumber::GetPid,
        SyscallNumber::MapMemory,
        SyscallNumber::UnmapMemory,
    ];
    for (index, call) in calls.iter().enumerate() {
        assert_eq!(call.number(), index as u64);
        assert_eq!(SyscallNumber::from_number(index as u64), Some(*call));
    }
    assert_eq!(SyscallNumber::from_number(10), None);
    assert_eq!(SyscallNumber::from_number(99), None);
}

#[test]
fn unwired_syscalls_succeed_with_zero() {
    let mut service = ProcessService::new();
    let mut context = ContextManager::new();
    for number in [0u64, 1, 2, 3, 8, 9] {
        let result =
            handle_syscall(&mut service, &mut context, number, args([7, 7, 7, 7, 7, 7]), &[1, 2]);
        assert_eq!(result, SyscallResult::Success(0));
    }
    assert_eq!(service.get_process_count(), 0);
    assert_eq!(syscall_send_message(no_args()), SyscallResult::Success(0));
    assert_eq!(syscall_receive_message(no_args()), SyscallResult::Success(0));
    assert_eq!(syscall_allocate_memory(args([4096, 0, 0, 0, 0, 0])), SyscallResult::Success(0));
    assert_eq!(syscall_deallocate_memory(no_args()), SyscallResult::Success(0));
    assert_eq!(syscall_map_memory(no_args()), SyscallResult::Success(0));
    assert_eq!(syscall_unmap_memory(no_args()), SyscallResult::Success(0));
}

#[test]
fn create_process_syscall_creates_a_ready_process() {
    let mut service = ProcessService::new();
    let mut context = ContextManager::new();
    let name = b"worker";
    let call = args([0xdead_0000, name.len() as u64, 2, 4096, 8192, 0]);
    let result = handle_syscall(&mut service, &mut context, 4, call, name);
    assert_eq!(result, SyscallResult::Success(1));
    let pcb = service.get_process(1).unwrap();
    assert_eq!(pcb.name, "worker");
    assert_eq!(pcb.priority, ProcessPriority::High);
    assert_eq!(pcb.state, ProcessState::Ready);
    assert_eq!(pcb.stack_size, 4096);
    assert_eq!(pcb.heap_size, 8192);
    assert_eq!(pcb.memory_usage, 12288);
}

#[test]
fn create_process_syscall_decodes_priorities() {
    let mut service = ProcessService::new();
    let expected = [
        (0u64, ProcessPriority::Low),
        (1, ProcessPriority::Normal),
        (2, ProcessPriority::High),
        (3, ProcessPriority::Critical),
        (4, ProcessPriority::Normal),
        (1000, ProcessPriority::Normal),
    ];
    for (code, priority) in expected {
        let result = syscall_create_process(&mut service, args([0, 1, code, 16, 16, 0]), b"p");
        match result {
            SyscallResult::Success(pid) => {
                assert_eq!(service.get_process(pid).unwrap().priority, priority);
            },
            SyscallResult::Error(error) => panic!("create failed: {}", error.message()),
        }
    }
}

#[test]
fn create_process_syscall_names_invalid_text_unknown() {
    let mut service = ProcessService::new();
    let result = syscall_create_process(&mut service, args([0, 2, 1, 16, 16, 0]), &[0xff, 0xfe]);
    assert_eq!(result, SyscallResult::Success(1));
    assert_eq!(service.get_process(1).unwrap().name, "unknown");
    let text = "z\u{e4}hler \u{2603}";
    let result = syscall_create_process(&mut service, args([0, 0, 1, 16, 16, 0]), text.as_bytes());
    assert_eq!(result, SyscallResult::Success(2));
    assert_eq!(service.get_process(2).unwrap().name, text);
    let result = syscall_create_process(&mut service, args([0, 0, 1, 16, 16, 0]), &[]);
    assert_eq!(result, SyscallResult::Success(3));
    assert_eq!(service.get_process(3).unwrap().name, "");
}

#[test]
fn create_process_syscall_reports_failure_as_process_not_found() {
    let mut service = ProcessService::new();
    let mut context = ContextManager::new();
    let call = args([0, 1, 1, u64::MAX, 1, 0]);
    let result = handle_syscall(&mut service, &mut context, 4, call, b"x");
    assert_eq!(result, SyscallResult::Error(SyscallError::ProcessNotFound));
    assert_eq!(u64::from(result), 0x8000_0000_0000_0004);
    assert_eq!(service.get_process_count(), 0);
}

#[test]
fn exit_syscall_terminates_the_current_process() {
    let mut service = service_with_current(2);
    let mut context = ContextManager::new();
    let result = handle_syscall(&mut service, &mut context, 5, args([3, 0, 0, 0, 0, 0]), &[]);
    assert_eq!(result, SyscallResult::Success(0));
    let pcb = service.get_process(2).unwrap();
    assert_eq!(pcb.state, ProcessState::Terminated);
    assert_eq!(pcb.exit_code, Some(3));
    assert_eq!(service.get_current_process(), None);
    let again = handle_syscall(&mut service, &mut context, 5, no_args(), &[]);
    assert_eq!(again, SyscallResult::Error(SyscallError::NoCurrentProcess));
}

#[test]
fn exit_syscall_keeps_the_low_bits_of_the_exit_code() {
    let mut service = service_with_current(1);
    let result = syscall_exit_process(&mut service, args([u64::MAX, 0, 0, 0, 0, 0]));
    assert_eq!(result, SyscallResult::Success(0));
    assert_eq!(service.get_process(1).unwrap().exit_code, Some(-1));
    let mut service = service_with_current(1);
    syscall_exit_process(&mut service, args([0x1_0000_0007, 0, 0, 0, 0, 0]));
    assert_eq!(service.get_process(1).unwrap().exit_code, Some(7));
}

#[test]
fn yield_syscall_schedules_the_next_ready_process() {
    let mut service = ProcessService::new();
    let mut context = ContextManager::new();
    service.init();
    service.create_process("a".to_string(), ProcessPriority::Normal, 64, 64).unwrap();
    service.create_process("b".to_string(), ProcessPriority::Normal, 64, 64).unwrap();
    let result = handle_syscall(&mut service, &mut context, 6, no_args(), &[]);
    assert_eq!(result, SyscallResult::Success(1));
    assert_eq!(service.get_current_process(), Some(1));
    assert_eq!(context.get_current_process(), Some(1));
    assert_eq!(syscall_yield(&mut service, &mut context, no_args()), SyscallResult::Success(2));
    assert_eq!(service.get_process(1).unwrap().state, ProcessState::Ready);
    // The kernel's own process takes its turn too.
    assert_eq!(syscall_yield(&mut service, &mut context, no_args()), SyscallResult::Success(0));
    assert_eq!(service.get_current_process(), Some(0));
    assert_eq!(syscall_yield(&mut service, &mut context, no_args()), SyscallResult::Success(1));
}

#[test]
fn yield_syscall_without_ready_process_returns_zero() {
    let mut service = ProcessService::new();
    let mut context = ContextManager::new();
    assert_eq!(syscall_yield(&mut service, &mut context, no_args()), SyscallResult::Success(0));
    assert_eq!(service.get_current_process(), None);
    service.create_process("a".to_string(), ProcessPriority::Normal, 64, 64).unwrap();
    assert_eq!(syscall_yield(&mut service, &mut context, no_args()), SyscallResult::Success(1));
    // Only the caller could run: it keeps the CPU, and the call returns 0.
    assert_eq!(syscall_yield(&mut service, &mut context, no_args()), SyscallResult::Success(0));
    assert_eq!(service.get_current_process(), Some(1));
    assert_eq!(service.get_process(1).unwrap().state, ProcessState::Running);
}
