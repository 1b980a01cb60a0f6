//! System calls: numbers, arguments, results and the dispatcher.

use crate::process::context::{ContextManager, ContextState};
use crate::process::pcb::{ProcessError, ProcessId, ProcessPriority};
use crate::services::process_service::{
    create_outcome, create_result, schedule_outcome, terminate_outcome, ProcessService,
    ServiceState,
};
use vstd::prelude::*;
use vstd::utf8::{decode_utf8, valid_utf8};

verus! {

/// System call numbers.
#[derive(Debug, Clone, Copy, PartialEq, Eq, Structural)]
pub enum SyscallNumber {
    SendMessage,
    ReceiveMessage,
    AllocateMemory,
    DeallocateMemory,
    CreateProcess,
    ExitProcess,
    Yield,
    GetPid,
    MapMemory,
    UnmapMemory,
}

impl SyscallNumber {
    /// The number by which a system call is requested: 0 for
    /// `SendMessage` up to 9 for `UnmapMemory`.
    pub open spec fn code(self) -> u64 {
        match self {
            SyscallNumber::SendMessage => 0,
            SyscallNumber::ReceiveMessage => 1,
            SyscallNumber::AllocateMemory => 2,
            SyscallNumber::DeallocateMemory => 3,
            SyscallNumber::CreateProcess => 4,
            SyscallNumber::ExitProcess => 5,
            SyscallNumber::Yield => 6,
            SyscallNumber::GetPid => 7,
            SyscallNumber::MapMemory => 8,
            SyscallNumber::UnmapMemory => 9,
        }
    }

    /// The system call that `number` requests, if any.
    pub open spec fn decode(number: u64) -> Option<SyscallNumber> {
        if number == 0 {
            Some(SyscallNumber::SendMessage)
        } else if number == 1 {
            Some(SyscallNumber::ReceiveMessage)
        } else if number == 2 {
            Some(SyscallNumber::AllocateMemory)
        } else if number == 3 {
            Some(SyscallNumber::DeallocateMemory)
        } else if number == 4 {
            Some(SyscallNumber::CreateProcess)
        } else if number == 5 {
            Some(SyscallNumber::ExitProcess)
        } else if number == 6 {
            Some(SyscallNumber::Yield)
        } else if number == 7 {
            Some(SyscallNumber::GetPid)
        } else if number == 8 {
            Some(SyscallNumber::MapMemory)
        } else if number == 9 {
            Some(SyscallNumber::UnmapMemory)
        } else {
            None
        }
    }

    /// The number by which this system call is requested.
    pub fn number(self) -> (n: u64)
        ensures
            n == self.code(),
            Self::decode(n) == Some(self),
    {
        match self {
            SyscallNumber::SendMessage => 0,
            SyscallNumber::ReceiveMessage => 1,
            SyscallNumber::AllocateMemory => 2,
            SyscallNumber::DeallocateMemory => 3,
            SyscallNumber::CreateProcess => 4,
            SyscallNumber::ExitProcess => 5,
            SyscallNumber::Yield => 6,
            SyscallNumber::GetPid => 7,
            SyscallNumber::MapMemory => 8,
            SyscallNumber::UnmapMemory => 9,
        }
    }

    /// The system call that `number` requests; `None` for a number above 9.
    pub fn from_number(number: u64) -> (call: Option<SyscallNumber>)
        ensures
            call == Self::decode(number),
            call is Some <==> number <= 9,
            call matches Some(c) ==> c.code() == number,
    {
        match number {
            0 => Some(SyscallNumber::SendMessage),
            1 => Some(SyscallNumber::ReceiveMessage),
            2 => Some(SyscallNumber::AllocateMemory),
            3 => Some(SyscallNumber::DeallocateMemory),
            4 => Some(SyscallNumber::CreateProcess),
            5 => Some(SyscallNumber::ExitProcess),
            6 => Some(SyscallNumber::Yield),
            7 => Some(SyscallNumber::GetPid),
            8 => Some(SyscallNumber::MapMemory),
            9 => Some(SyscallNumber::UnmapMemory),
            _ => None,
        }
    }
}

/// The six arguments of a system call, in the order of the registers that
/// carry them: rdi, rsi, rdx, r10, r8, r9.
#[derive(Debug, Clone, Copy, PartialEq, Eq, Structural)]
pub struct SyscallArgs {
    pub arg0: u64,
    pub arg1: u64,
    pub arg2: u64,
    pub arg3: u64,
    pub arg4: u64,
    pub arg5: u64,
}

/// System call errors.  Their order is fixed: the position of an error is
/// its code at the privilege boundary.
#[derive(Debug, Clone, Copy, PartialEq, Eq, Structural)]
pub enum SyscallError {
    InvalidSyscall,
    InvalidArgument,
    PermissionDenied,
    OutOfMemory,
    ProcessNotFound,
    InvalidProcessId,
    MessageQueueFull,
    NoMessageAvailable,
    InvalidMemoryRegion,
    CapabilityDenied,
    NoCurrentProcess,
}

impl SyscallError {
    /// The code of an error: 0 for `InvalidSyscall` up to 10 for
    /// `NoCurrentProcess`.
    pub open spec fn code(self) -> u64 {
        match self {
            SyscallError::InvalidSyscall => 0,
            SyscallError::InvalidArgument => 1,
            SyscallError::PermissionDenied => 2,
            SyscallError::OutOfMemory => 3,
            SyscallError::ProcessNotFound => 4,
            SyscallError::InvalidProcessId => 5,
            SyscallError::MessageQueueFull => 6,
            SyscallError::NoMessageAvailable => 7,
            SyscallError::InvalidMemoryRegion => 8,
            SyscallError::CapabilityDenied => 9,
            SyscallError::NoCurrentProcess => 10,
        }
    }

    /// The code of an error.
    pub fn error_code(self) -> (code: u64)
        ensures
            code == self.code(),
            code <= 10,
    {
        match self {
            SyscallError::InvalidSyscall => 0,
            SyscallError::InvalidArgument => 1,
            SyscallError::PermissionDenied => 2,
            SyscallError::OutOfMemory => 3,
            SyscallError::ProcessNotFound => 4,
            SyscallError::InvalidProcessId => 5,
            SyscallError::MessageQueueFull => 6,
            SyscallError::NoMessageAvailable => 7,
            SyscallError::InvalidMemoryRegion => 8,
            SyscallError::CapabilityDenied => 9,
            SyscallError::NoCurrentProcess => 10,
        }
    }

    /// The text that describes an error.
    pub open spec fn description(self) -> Seq<char> {
        match self {
            SyscallError::InvalidSyscall => "Invalid syscall number"@,
            SyscallError::InvalidArgument => "Invalid argument"@,
            SyscallError::PermissionDenied => "Permission denied"@,
            SyscallError::OutOfMemory => "Out of memory"@,
            SyscallError::ProcessNotFound => "Process not found"@,
            SyscallError::InvalidProcessId => "Invalid process ID"@,
            SyscallError::MessageQueueFull => "Message queue full"@,
            SyscallError::NoMessageAvailable => "No message available"@,
            SyscallError::InvalidMemoryRegion => "Invalid memory region"@,
            SyscallError::CapabilityDenied => "Capability denied"@,
            SyscallError::NoCurrentProcess => "No current process"@,
        }
    }

    /// The text that describes an error, for display.
    pub fn message(&self) -> (text: &'static str)
        ensures
            text@ == self.description(),
    {
        match self {
            SyscallError::InvalidSyscall => "Invalid syscall number",
            SyscallError::InvalidArgument => "Invalid argument",
            SyscallError::PermissionDenied => "Permission denied",
            SyscallError::OutOfMemory => "Out of memory",
            SyscallError::ProcessNotFound => "Process not found",
            SyscallError::InvalidProcessId => "Invalid process ID",
            SyscallError::MessageQueueFull => "Message queue full",
            SyscallError::NoMessageAvailable => "No message available",
            SyscallError::InvalidMemoryRegion => "Invalid memory region",
            SyscallError::CapabilityDenied => "Capability denied",
            SyscallError::NoCurrentProcess => "No current process",
        }
    }
}

/// System call result.
#[derive(Debug, Clone, Copy, PartialEq, Eq, Structural)]
pub enum SyscallResult {
    Success(u64),
    Error(SyscallError),
}

/// The bit of the return value that marks an error.
pub const ERROR_FLAG: u64 = 0x8000_0000_0000_0000;

/// The return value that carries a result across the privilege boundary:
/// a success value as it is, an error as its code with the error flag set.
pub open spec fn encode(result: SyscallResult) -> u64 {
    match result {
        SyscallResult::Success(value) => value,
        SyscallResult::Error(error) => ERROR_FLAG | error.code(),
    }
}

impl From<SyscallResult> for u64 {
    fn from(result: SyscallResult) -> (value: u64) {
        match result {
            SyscallResult::Success(value) => value,
            SyscallResult::Error(error) => ERROR_FLAG | error.error_code(),
        }
    }
}

impl vstd::std_specs::convert::FromSpecImpl<SyscallResult> for u64 {
    open spec fn obeys_from_spec() -> bool {
        true
    }

    open spec fn from_spec(result: SyscallResult) -> u64 {
        encode(result)
    }
}

/// An encoded error has the error flag set and its code in the low 63
/// bits; it is the flag plus the code.
pub proof fn lemma_error_encoding(error: SyscallError)
    ensures
        encode(SyscallResult::Error(error)) & ERROR_FLAG == ERROR_FLAG,
        encode(SyscallResult::Error(error)) & !ERROR_FLAG == error.code(),
        encode(SyscallResult::Error(error)) == ERROR_FLAG + error.code(),
{
    let code = error.code();
    assert(code <= 10);
    assert(code <= 10 ==> (0x8000_0000_0000_0000u64 | code) & 0x8000_0000_0000_0000u64
        == 0x8000_0000_0000_0000u64) by (bit_vector);
    assert(code <= 10 ==> (0x8000_0000_0000_0000u64 | code) & !0x8000_0000_0000_0000u64 == code)
        by (bit_vector);
    assert(code <= 10 ==> (0x8000_0000_0000_0000u64 | code) == 0x8000_0000_0000_0000u64 + code)
        by (bit_vector);
}

/// Different errors have different encodings.
pub proof fn lemma_error_encoding_injective(a: SyscallError, b: SyscallError)
    requires
        encode(SyscallResult::Error(a)) == encode(SyscallResult::Error(b)),
    ensures
        a == b,
{
    lemma_error_encoding(a);
    lemma_error_encoding(b);
}

/// A number above 9 requests no system call: the call fails with
/// `InvalidSyscall`, whose encoding is the error flag alone, and changes
/// nothing.
pub proof fn lemma_unknown_syscall(
    before: ServiceState,
    context_before: ContextState,
    after: ServiceState,
    context_after: ContextState,
    syscall_num: u64,
    args: SyscallArgs,
    user_memory: Seq<u8>,
    result: SyscallResult,
)
    requires
        syscall_num > 9,
        syscall_outcome(
            before,
            context_before,
            after,
            context_after,
            syscall_num,
            args,
            user_memory,
            result,
        ),
    ensures
        result == SyscallResult::Error(SyscallError::InvalidSyscall),
        encode(result) == ERROR_FLAG,
        after == before,
        context_after == context_before,
{
    lemma_error_encoding(SyscallError::InvalidSyscall);
}

/// Asking for the pid changes nothing and returns the current pid, or
/// fails with `NoCurrentProcess`.
pub proof fn lemma_get_pid_syscall(
    before: ServiceState,
    context_before: ContextState,
    after: ServiceState,
    context_after: ContextState,
    args: SyscallArgs,
    user_memory: Seq<u8>,
    result: SyscallResult,
)
    requires
        syscall_outcome(before, context_before, after, context_after, 7, args, user_memory, result),
    ensures
        after == before,
        context_after == context_before,
        before.current_process matches Some(pid) ==> result == SyscallResult::Success(pid),
        before.current_process is None ==> result == SyscallResult::Error(
            SyscallError::NoCurrentProcess,
        ),
{
}

/// Calls `core::str::from_utf8`: the text that `bytes` encode in UTF-8, or
/// `None` when they are not valid UTF-8.
#[verifier::external_body]
fn utf8_text(bytes: &[u8]) -> (text: Option<&str>)
    ensures
        text is Some <==> valid_utf8(bytes@),
        text matches Some(s) ==> s@ == decode_utf8(bytes@),
{
    core::str::from_utf8(bytes).ok()
}

/// The name that a new process gets from the bytes its creator handed in:
/// their text, or "unknown" when they are not valid UTF-8.
pub open spec fn process_name(bytes: Seq<u8>) -> Seq<char> {
    if valid_utf8(bytes) {
        decode_utf8(bytes)
    } else {
        seq!['u', 'n', 'k', 'n', 'o', 'w', 'n']
    }
}

/// The result that crosses the privilege boundary for an outcome of
/// `create_process`: the new pid, or `ProcessNotFound` for any failure.
pub open spec fn created_result(created: Result<ProcessId, ProcessError>) -> SyscallResult {
    match created {
        Ok(pid) => SyscallResult::Success(pid),
        Err(_) => SyscallResult::Error(SyscallError::ProcessNotFound),
    }
}

/// What the exit call does: it terminates the current process with the
/// exit code and succeeds with 0, or fails with `NoCurrentProcess`.
pub open spec fn exit_outcome(before: ServiceState, exit_code: i32) -> (
    ServiceState,
    SyscallResult,
) {
    match before.current_process {
        Some(pid) => (
            terminate_outcome(before, pid, exit_code).0,
            SyscallResult::Success(0),
        ),
        None => (before, SyscallResult::Error(SyscallError::NoCurrentProcess)),
    }
}

/// What the yield call does: it schedules the next process and succeeds
/// with its pid, or with 0 when no process is ready.
pub open spec fn yield_outcome(
    before: ServiceState,
    context_before: ContextState,
    after: ServiceState,
    context_after: ContextState,
    result: SyscallResult,
) -> bool {
    &&& result matches SyscallResult::Success(value)
    &&& {
        ||| schedule_outcome(before, context_before, after, context_after, Some(value))
        ||| (value == 0 && schedule_outcome(
            before,
            context_before,
            after,
            context_after,
            None,
        ))
    }
}

/// The result of asking for the current pid.
pub open spec fn get_pid_result(service: ServiceState) -> SyscallResult {
    match service.current_process {
        Some(pid) => SyscallResult::Success(pid),
        None => SyscallResult::Error(SyscallError::NoCurrentProcess),
    }
}

/// What a system call does, by its number.
///
/// `user_memory` holds the bytes that the caller's memory holds where
/// `arg0` points, `arg1` of them; only `CreateProcess` reads them.
pub open spec fn syscall_outcome(
    before: ServiceState,
    context_before: ContextState,
    after: ServiceState,
    context_after: ContextState,
    syscall_num: u64,
    args: SyscallArgs,
    user_memory: Seq<u8>,
    result: SyscallResult,
) -> bool {
    match SyscallNumber::decode(syscall_num) {
        Some(SyscallNumber::CreateProcess) => {
            &&& context_after == context_before
            &&& create_outcome(
                before,
                after,
                process_name(user_memory),
                ProcessPriority::decode(args.arg2),
                args.arg3 as usize,
                args.arg4 as usize,
            )
            &&& result == created_result(
                create_result(before, args.arg3 as usize, args.arg4 as usize),
            )
        },
        Some(SyscallNumber::ExitProcess) => {
            &&& context_after == context_before
            &&& (after, result) == exit_outcome(before, args.arg0 as i32)
        },
        Some(SyscallNumber::Yield) => yield_outcome(
            before,
            context_before,
            after,
            context_after,
            result,
        ),
        Some(SyscallNumber::GetPid) => {
            &&& context_after == context_before
            &&& after == before
            &&& result == get_pid_result(before)
        },
        Some(_) => {
            &&& context_after == context_before
            &&& after == before
            &&& result == SyscallResult::Success(0)
        },
        None => {
            &&& context_after == context_before
            &&& after == before
            &&& result == SyscallResult::Error(SyscallError::InvalidSyscall)
        },
    }
}

/// Handles a system call: routes the call number to its handler.
///
/// `user_memory` is the caller's memory at `args.arg0`, `args.arg1` bytes
/// of it, copied out by whoever may read it.
pub fn handle_syscall(
    service: &mut ProcessService,
    context: &mut ContextManager,
    syscall_num: u64,
    args: SyscallArgs,
    user_memory: &[u8],
) -> (result: SyscallResult)
    requires
        old(service).wf(),
    ensures
        final(service).wf(),
        syscall_outcome(
            old(service)@,
            old(context)@,
            final(service)@,
            final(context)@,
            syscall_num,
            args,
            user_memory@,
            result,
        ),
{
    match SyscallNumber::from_number(syscall_num) {
        Some(SyscallNumber::SendMessage) => syscall_send_message(args),
        Some(SyscallNumber::ReceiveMessage) => syscall_receive_message(args),
        Some(SyscallNumber::AllocateMemory) => syscall_allocate_memory(args),
        Some(SyscallNumber::DeallocateMemory) => syscall_deallocate_memory(args),
        Some(SyscallNumber::CreateProcess) => syscall_create_process(service, args, user_memory),
        Some(SyscallNumber::ExitProcess) => syscall_exit_process(service, args),
        Some(SyscallNumber::Yield) => syscall_yield(service, context, args),
        Some(SyscallNumber::GetPid) => syscall_get_pid(service, args),
        Some(SyscallNumber::MapMemory) => syscall_map_memory(args),
        Some(SyscallNumber::UnmapMemory) => syscall_unmap_memory(args),
        None => SyscallResult::Error(SyscallError::InvalidSyscall),
    }
}

/// Sending a message is not wired up yet: the call succeeds with 0.
pub fn syscall_send_message(args: SyscallArgs) -> (result: SyscallResult)
    ensures
        result == SyscallResult::Success(0),
{
    SyscallResult::Success(0)
}

/// Receiving a message is not wired up yet: the call succeeds with 0.
pub fn syscall_receive_message(args: SyscallArgs) -> (result: SyscallResult)
    ensures
        result == SyscallResult::Success(0),
{
    SyscallResult::Success(0)
}

/// Allocating memory is not wired up yet: the call succeeds with 0.
pub fn syscall_allocate_memory(args: SyscallArgs) -> (result: SyscallResult)
    ensures
        result == SyscallResult::Success(0),
{
    SyscallResult::Success(0)
}

/// Deallocating memory is not wired up yet: the call succeeds with 0.
pub fn syscall_deallocate_memory(args: SyscallArgs) -> (result: SyscallResult)
    ensures
        result == SyscallResult::Success(0),
{
    SyscallResult::Success(0)
}

/// Creates a process.  The arguments are: where the name is and how long,
/// a priority code, the stack size and the heap size.  `name_bytes` are
/// the bytes of the name.
pub fn syscall_create_process(
    service: &mut ProcessService,
    args: SyscallArgs,
    name_bytes: &[u8],
) -> (result: SyscallResult)
    requires
        old(service).wf(),
    ensures
        final(service).wf(),
        create_outcome(
            old(service)@,
            final(service)@,
            process_name(name_bytes@),
            ProcessPriority::decode(args.arg2),
            args.arg3 as usize,
            args.arg4 as usize,
        ),
        result == created_result(
            create_result(old(service)@, args.arg3 as usize, args.arg4 as usize),
        ),
{
    let priority = ProcessPriority::from_code(args.arg2);
    let stack_size = #[verifier::truncate] (args.arg3 as usize);
    let heap_size = #[verifier::truncate] (args.arg4 as usize);
    let name = match utf8_text(name_bytes) {
        Some(text) => text.to_owned(),
        None => {
            proof {
                reveal_strlit("unknown");
                assert("unknown"@ =~= seq!['u', 'n', 'k', 'n', 'o', 'w', 'n']);
            }
            "unknown".to_owned()
        },
    };
    match service.create_process(name, priority, stack_size, heap_size) {
        Ok(pid) => SyscallResult::Success(pid),
        Err(_) => SyscallResult::Error(SyscallError::ProcessNotFound),
    }
}

/// Terminates the calling process with the exit code in the first argument.
pub fn syscall_exit_process(service: &mut ProcessService, args: SyscallArgs) -> (result:
    SyscallResult)
    requires
        old(service).wf(),
    ensures
        final(service).wf(),
        (final(service)@, result) == exit_outcome(old(service)@, args.arg0 as i32),
{
    let exit_code = #[verifier::truncate] (args.arg0 as i32);
    match service.get_current_process() {
        Some(current_pid) => {
            match service.terminate_process(current_pid, exit_code) {
                Ok(()) => SyscallResult::Success(0),
                Err(_) => SyscallResult::Error(SyscallError::ProcessNotFound),
            }
        },
        None => SyscallResult::Error(SyscallError::NoCurrentProcess),
    }
}

/// Gives up the CPU: schedules the next ready process.
pub fn syscall_yield(
    service: &mut ProcessService,
    context: &mut ContextManager,
    args: SyscallArgs,
) -> (result: SyscallResult)
    requires
        old(service).wf(),
    ensures
        final(service).wf(),
        yield_outcome(old(service)@, old(context)@, final(service)@, final(context)@, result),
{
    match service.schedule_next(context) {
        Some(next_pid) => SyscallResult::Success(next_pid),
        None => SyscallResult::Success(0),
    }
}

/// The pid of the calling process.
pub fn syscall_get_pid(service: &ProcessService, args: SyscallArgs) -> (result: SyscallResult)
    ensures
        result == get_pid_result(service@),
{
    match service.get_current_process() {
        Some(pid) => SyscallResult::Success(pid),
        None => SyscallResult::Error(SyscallError::NoCurrentProcess),
    }
}

/// Mapping memory is not wired up yet: the call succeeds with 0.
pub fn syscall_map_memory(args: SyscallArgs) -> (result: SyscallResult)
    ensures
        result == SyscallResult::Success(0),
{
    SyscallResult::Success(0)
}

/// Unmapping memory is not wired up yet: the call succeeds with 0.
pub fn syscall_unmap_memory(args: SyscallArgs) -> (result: SyscallResult)
    ensures
        result == SyscallResult::Success(0),
{
    SyscallResult::Success(0)
}

} // verus!
