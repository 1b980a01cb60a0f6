//! Interrupt vectors and the system-call entry: how a trap becomes a call of
//! the dispatcher and how its result gets back to the caller.
//!
//! On a system-call trap every general-purpose register is pushed on the
//! stack, in the order r15, r14, r13, r12, r11, r10, r9, r8, rbp, rdi, rsi,
//! rdx, rcx, rbx, rax, and the stack pointer is lowered by one more word to
//! keep it aligned for the call.  The saved registers then lie at fixed
//! offsets from the stack pointer.  The entry reads the call number and the
//! arguments from there, calls the dispatcher, and writes the result where
//! rax was saved.  When the registers are popped again the caller finds the
//! result in rax and every other register as it left it.

use crate::process::context::{ContextManager, ContextState};
use crate::services::process_service::{ProcessService, ServiceState};
use crate::syscalls::{encode, handle_syscall, syscall_outcome, SyscallArgs, SyscallResult};
use vstd::prelude::*;

verus! {

/// Interrupt vector of the first interrupt of the first controller.
pub const PIC_1_OFFSET: u8 = 32;

/// Interrupt vector of the first interrupt of the second controller.
pub const PIC_2_OFFSET: u8 = 40;

/// Interrupt vector of the system call.
pub const SYSCALL_VECTOR: u8 = 0x80;

/// The interrupts that the kernel handles.
#[derive(Debug, Clone, Copy)]
pub enum InterruptIndex {
    Timer,
    Keyboard,
    Syscall,
}

impl InterruptIndex {
    /// The vector of an interrupt: the timer comes first on the first
    /// controller, the keyboard next; the system call has a vector of its
    /// own.
    pub open spec fn vector(self) -> u8 {
        match self {
            InterruptIndex::Timer => PIC_1_OFFSET,
            InterruptIndex::Keyboard => 33,
            InterruptIndex::Syscall => SYSCALL_VECTOR,
        }
    }

    /// The vector of an interrupt.
    pub fn as_u8(self) -> (vector: u8)
        ensures
            vector == self.vector(),
    {
        match self {
            InterruptIndex::Timer => PIC_1_OFFSET,
            InterruptIndex::Keyboard => PIC_1_OFFSET + 1,
            InterruptIndex::Syscall => SYSCALL_VECTOR,
        }
    }

    /// The vector of an interrupt, as an index into the descriptor table.
    pub fn as_usize(self) -> (index: usize)
        ensures
            index == self.vector(),
    {
        usize::from(self.as_u8())
    }
}

/// The general-purpose registers that the system-call entry saves.
#[derive(Debug, Clone, Copy, PartialEq, Eq, Structural)]
pub struct SavedRegisters {
    pub rax: u64,
    pub rbx: u64,
    pub rcx: u64,
    pub rdx: u64,
    pub rsi: u64,
    pub rdi: u64,
    pub rbp: u64,
    pub r8: u64,
    pub r9: u64,
    pub r10: u64,
    pub r11: u64,
    pub r12: u64,
    pub r13: u64,
    pub r14: u64,
    pub r15: u64,
}

/// Number of 8-byte words in the frame of the system-call entry: one word
/// of padding and fifteen registers.
pub const FRAME_WORDS: usize = 16;

/// Byte offset of the saved rax from the stack pointer.
pub const RAX_OFFSET: usize = 8;

/// Byte offset of the saved rbx.
pub const RBX_OFFSET: usize = 16;

/// Byte offset of the saved rcx.
pub const RCX_OFFSET: usize = 24;

/// Byte offset of the saved rdx.
pub const RDX_OFFSET: usize = 32;

/// Byte offset of the saved rsi.
pub const RSI_OFFSET: usize = 40;

/// Byte offset of the saved rdi.
pub const RDI_OFFSET: usize = 48;

/// Byte offset of the saved rbp.
pub const RBP_OFFSET: usize = 56;

/// Byte offset of the saved r8.
pub const R8_OFFSET: usize = 64;

/// Byte offset of the saved r9.
pub const R9_OFFSET: usize = 72;

/// Byte offset of the saved r10.
pub const R10_OFFSET: usize = 80;

/// Byte offset of the saved r11.
pub const R11_OFFSET: usize = 88;

/// Byte offset of the saved r12.
pub const R12_OFFSET: usize = 96;

/// Byte offset of the saved r13.
pub const R13_OFFSET: usize = 104;

/// Byte offset of the saved r14.
pub const R14_OFFSET: usize = 112;

/// Byte offset of the saved r15.
pub const R15_OFFSET: usize = 120;

/// The word of a frame at a byte offset.
pub open spec fn word_at(frame: Seq<u64>, offset: usize) -> u64 {
    frame[offset as int / 8]
}

/// The frame, lowest address first, after the registers were pushed; the
/// word of padding is zero.
pub open spec fn frame_of(registers: SavedRegisters) -> Seq<u64> {
    seq![
        0,
        registers.rax,
        registers.rbx,
        registers.rcx,
        registers.rdx,
        registers.rsi,
        registers.rdi,
        registers.rbp,
        registers.r8,
        registers.r9,
        registers.r10,
        registers.r11,
        registers.r12,
        registers.r13,
        registers.r14,
        registers.r15,
    ]
}

/// The registers as they are popped from a frame.
pub open spec fn registers_of(frame: Seq<u64>) -> SavedRegisters {
    SavedRegisters {
        rax: word_at(frame, RAX_OFFSET),
        rbx: word_at(frame, RBX_OFFSET),
        rcx: word_at(frame, RCX_OFFSET),
        rdx: word_at(frame, RDX_OFFSET),
        rsi: word_at(frame, RSI_OFFSET),
        rdi: word_at(frame, RDI_OFFSET),
        rbp: word_at(frame, RBP_OFFSET),
        r8: word_at(frame, R8_OFFSET),
        r9: word_at(frame, R9_OFFSET),
        r10: word_at(frame, R10_OFFSET),
        r11: word_at(frame, R11_OFFSET),
        r12: word_at(frame, R12_OFFSET),
        r13: word_at(frame, R13_OFFSET),
        r14: word_at(frame, R14_OFFSET),
        r15: word_at(frame, R15_OFFSET),
    }
}

/// The call number that a frame holds: the saved rax.
pub open spec fn frame_syscall_number(frame: Seq<u64>) -> u64 {
    word_at(frame, RAX_OFFSET)
}

/// The arguments that a frame holds: the saved rdi, rsi, rdx, r10, r8 and
/// r9, in this order.
pub open spec fn frame_syscall_args(frame: Seq<u64>) -> SyscallArgs {
    SyscallArgs {
        arg0: word_at(frame, RDI_OFFSET),
        arg1: word_at(frame, RSI_OFFSET),
        arg2: word_at(frame, RDX_OFFSET),
        arg3: word_at(frame, R10_OFFSET),
        arg4: word_at(frame, R8_OFFSET),
        arg5: word_at(frame, R9_OFFSET),
    }
}

/// The frame with `value` where rax was saved.
pub open spec fn with_return_value(frame: Seq<u64>, value: u64) -> Seq<u64> {
    frame.update(RAX_OFFSET as int / 8, value)
}

/// Pushes the registers: builds the frame that the entry works on.
pub fn save_registers(registers: &SavedRegisters) -> (frame: [u64; FRAME_WORDS])
    ensures
        frame@ == frame_of(*registers),
{
    let mut frame: [u64; FRAME_WORDS] = [0;FRAME_WORDS];
    frame[R15_OFFSET / 8] = registers.r15;
    frame[R14_OFFSET / 8] = registers.r14;
    frame[R13_OFFSET / 8] = registers.r13;
    frame[R12_OFFSET / 8] = registers.r12;
    frame[R11_OFFSET / 8] = registers.r11;
    frame[R10_OFFSET / 8] = registers.r10;
    frame[R9_OFFSET / 8] = registers.r9;
    frame[R8_OFFSET / 8] = registers.r8;
    frame[RBP_OFFSET / 8] = registers.rbp;
    frame[RDI_OFFSET / 8] = registers.rdi;
    frame[RSI_OFFSET / 8] = registers.rsi;
    frame[RDX_OFFSET / 8] = registers.rdx;
    frame[RCX_OFFSET / 8] = registers.rcx;
    frame[RBX_OFFSET / 8] = registers.rbx;
    frame[RAX_OFFSET / 8] = registers.rax;
    assert(frame@ =~= frame_of(*registers));
    frame
}

/// Pops the registers from a frame.
pub fn restore_registers(frame: &[u64; FRAME_WORDS]) -> (registers: SavedRegisters)
    ensures
        registers == registers_of(frame@),
{
    SavedRegisters {
        rax: frame[RAX_OFFSET / 8],
        rbx: frame[RBX_OFFSET / 8],
        rcx: frame[RCX_OFFSET / 8],
        rdx: frame[RDX_OFFSET / 8],
        rsi: frame[RSI_OFFSET / 8],
        rdi: frame[RDI_OFFSET / 8],
        rbp: frame[RBP_OFFSET / 8],
        r8: frame[R8_OFFSET / 8],
        r9: frame[R9_OFFSET / 8],
        r10: frame[R10_OFFSET / 8],
        r11: frame[R11_OFFSET / 8],
        r12: frame[R12_OFFSET / 8],
        r13: frame[R13_OFFSET / 8],
        r14: frame[R14_OFFSET / 8],
        r15: frame[R15_OFFSET / 8],
    }
}

/// The call number in a frame.
pub fn syscall_number(frame: &[u64; FRAME_WORDS]) -> (number: u64)
    ensures
        number == frame_syscall_number(frame@),
{
    frame[RAX_OFFSET / 8]
}

/// The arguments in a frame.
pub fn syscall_args(frame: &[u64; FRAME_WORDS]) -> (args: SyscallArgs)
    ensures
        args == frame_syscall_args(frame@),
{
    SyscallArgs {
        arg0: frame[RDI_OFFSET / 8],
        arg1: frame[RSI_OFFSET / 8],
        arg2: frame[RDX_OFFSET / 8],
        arg3: frame[R10_OFFSET / 8],
        arg4: frame[R8_OFFSET / 8],
        arg5: frame[R9_OFFSET / 8],
    }
}

/// Calls the dispatcher with a call number and six arguments in their
/// positions, and encodes its result as the one value that goes back.
pub fn syscall_dispatch(
    service: &mut ProcessService,
    context: &mut ContextManager,
    user_memory: &[u8],
    syscall_num: u64,
    arg0: u64,
    arg1: u64,
    arg2: u64,
    arg3: u64,
    arg4: u64,
    arg5: u64,
) -> (value: u64)
    requires
        old(service).wf(),
    ensures
        final(service).wf(),
        dispatched(
            old(service)@,
            old(context)@,
            final(service)@,
            final(context)@,
            syscall_num,
            (SyscallArgs { arg0, arg1, arg2, arg3, arg4, arg5 }),
            user_memory@,
            value,
        ),
{
    let args = SyscallArgs { arg0, arg1, arg2, arg3, arg4, arg5 };
    let result = handle_syscall(service, context, syscall_num, args, user_memory);
    assert(syscall_outcome(
        old(service)@,
        old(context)@,
        service@,
        context@,
        syscall_num,
        args,
        user_memory@,
        result,
    ));
    u64::from(result)
}

/// `value` is what goes back to the caller of a system call: the encoding
/// of a result that the call may have.
pub open spec fn dispatched(
    before: ServiceState,
    context_before: ContextState,
    after: ServiceState,
    context_after: ContextState,
    syscall_num: u64,
    args: SyscallArgs,
    user_memory: Seq<u8>,
    value: u64,
) -> bool {
    exists|result: SyscallResult|
        #![trigger encode(result)]
        syscall_outcome(
            before,
            context_before,
            after,
            context_after,
            syscall_num,
            args,
            user_memory,
            result,
        ) && value == encode(result)
}

/// The system-call entry on a frame of saved registers: reads the call
/// number and the arguments from the frame, dispatches the call, and
/// writes the result where rax was saved.  No other word of the frame
/// changes.
pub fn syscall_entry(
    service: &mut ProcessService,
    context: &mut ContextManager,
    user_memory: &[u8],
    frame: &mut [u64; FRAME_WORDS],
)
    requires
        old(service).wf(),
    ensures
        final(service).wf(),
        dispatched(
            old(service)@,
            old(context)@,
            final(service)@,
            final(context)@,
            frame_syscall_number(old(frame)@),
            frame_syscall_args(old(frame)@),
            user_memory@,
            word_at(final(frame)@, RAX_OFFSET),
        ),
        final(frame)@ == with_return_value(old(frame)@, word_at(final(frame)@, RAX_OFFSET)),
{
    let number = syscall_number(frame);
    let args = syscall_args(frame);
    let value = syscall_dispatch(
        service,
        context,
        user_memory,
        number,
        args.arg0,
        args.arg1,
        args.arg2,
        args.arg3,
        args.arg4,
        args.arg5,
    );
    frame[RAX_OFFSET / 8] = value;
    assert(frame@ =~= with_return_value(old(frame)@, value));
}

/// Popping what was pushed gives the registers back.
pub proof fn lemma_push_pop(registers: SavedRegisters)
    ensures
        registers_of(frame_of(registers)) == registers,
{
}

/// A system call changes no saved register but rax: after the entry has
/// written `value` into the frame of `registers`, the registers that are
/// popped are those that were pushed, with `value` in rax.
pub proof fn lemma_only_rax_changes(registers: SavedRegisters, value: u64)
    ensures
        registers_of(with_return_value(frame_of(registers), value)) == (SavedRegisters {
            rax: value,
            ..registers
        }),
{
}

/// The entry hands the dispatcher the registers of the calling convention:
/// the number from rax and the arguments from rdi, rsi, rdx, r10, r8, r9.
pub proof fn lemma_frame_arguments(registers: SavedRegisters)
    ensures
        frame_syscall_number(frame_of(registers)) == registers.rax,
        frame_syscall_args(frame_of(registers)) == (SyscallArgs {
            arg0: registers.rdi,
            arg1: registers.rsi,
            arg2: registers.rdx,
            arg3: registers.r10,
            arg4: registers.r8,
            arg5: registers.r9,
        }),
{
}

} // verus!
