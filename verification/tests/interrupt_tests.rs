use emos::interrupts::{
    restore_registers, save_registers, syscall_args, syscall_dispatch, syscall_entry,
    syscall_number, InterruptIndex, SavedRegisters, FRAME_WORDS, PIC_1_OFFSET, PIC_2_OFFSET,
    R10_OFFSET, R8_OFFSET, R9_OFFSET, RAX_OFFSET, RDI_OFFSET, RDX_OFFSET, RSI_OFFSET,
};
use emos::process::context::ContextManager;
use emos::process::pcb::ProcessPriority;
use emos::services::process_service::ProcessService;
use emos::syscalls::SyscallArgs;

fn registers() -> SavedRegisters {
    SavedRegisters {
        rax: 0xA0,
        rbx: 0xB0,
        rcx: 0xC0,
        rdx: 0xD0,
        rsi: 0x51,
        rdi: 0xD1,
        rbp: 0xB9,
        r8: 8,
        r9: 9,
        r10: 10,
        r11: 11,
        r12: 12,
        r13: 13,
        r14: 14,
        r15: 15,
    }
}

#[test]
fn interrupt_vectors() {
    assert_eq!(PIC_1_OFFSET, 32);
    assert_eq!(PIC_2_OFFSET, 40);
    assert_eq!(InterruptIndex::Timer.as_u8(), 32);
    assert_eq!(InterruptIndex::Keyboard.as_u8(), 33);
    assert_eq!(InterruptIndex::Syscall.as_u8(), 0x80);
    assert_eq!(InterruptIndex::Timer.as_usize(), 32);
    assert_eq!(InterruptIndex::Keyboard.as_usize(), 33);
    assert_eq!(InterruptIndex::Syscall.as_usize(), 128);
}

#[test]
fn frame_layout_follows_the_push_order() {
    let frame = save_registers(&registers());
    assert_eq!(FRAME_WORDS, 16);
    assert_eq!(
        frame,
        [0, 0xA0, 0xB0, 0xC0, 0xD0, 0x51, 0xD1, 0xB9, 8, 9, 10, 11, 12, 13, 14, 15]
    );
    assert_eq!(frame[8 / 8], 0xA0);
    assert_eq!(frame[48 / 8], 0xD1);
    assert_eq!(frame[40 / 8], 0x51);
    assert_eq!(frame[32 / 8], 0xD0);
    assert_eq!(frame[80 / 8], 10);
    assert_eq!(frame[64 / 8], 8);
    assert_eq!(frame[72 / 8], 9);
    assert_eq!(
        (RAX_OFFSET, RDI_OFFSET, RSI_OFFSET, RDX_OFFSET, R10_OFFSET, R8_OFFSET, R9_OFFSET),
        (8, 48, 40, 32, 80, 64, 72)
    );
}

#[test]
fn popping_gives_back_what_was_pushed() {
    let frame = save_registers(&registers());
    assert_eq!(restore_registers(&frame), registers());
}

#[test]
fn call_number_and_arguments_come_from_their_registers() {
    let frame = save_registers(&registers());
    assert_eq!(syscall_number(&frame), 0xA0);
    assert_eq!(
        syscall_args(&frame),
        SyscallArgs { arg0: 0xD1, arg1: 0x51, arg2: 0xD0, arg3: 10, arg4: 8, arg5: 9 }
    );
}

#[test]
fn entry_writes_the_result_into_rax_and_nothing_else() {
    let mut service = ProcessService::new();
    let mut context = ContextManager::new();
    service.init();
    let mut saved = registers();
    saved.rax = 7;
    let mut frame = save_registers(&saved);
    frame[0] = 0x5555;
    syscall_entry(&mut service, &mut context, &[], &mut frame);
    let after = restore_registers(&frame);
    assert_eq!(after, SavedRegisters { rax: 0, ..saved });
    assert_eq!(frame[0], 0x5555);
}

#[test]
fn entry_reports_errors_in_rax() {
    let mut service = ProcessService::new();
    let mut context = ContextManager::new();
    let mut saved = registers();
    saved.rax = 99;
    let mut frame = save_registers(&saved);
    syscall_entry(&mut service, &mut context, &[], &mut frame);
    assert_eq!(restore_registers(&frame), SavedRegisters { rax: 0x8000_0000_0000_0000, ..saved });
    saved.rax = 7;
    let mut frame = save_registers(&saved);
    syscall_entry(&mut service, &mut context, &[], &mut frame);
    assert_eq!(restore_registers(&frame), SavedRegisters { rax: 0x8000_0000_0000_000A, ..saved });
}

#[test]
fn entry_passes_the_arguments_in_order() {
    let mut service = ProcessService::new();
    let mut context = ContextManager::new();
    let saved = SavedRegisters {
        rax: 4,
        rdi: 0x7000,
        rsi: 4,
        rdx: 3,
        r10: 4096,
        r8: 8192,
        r9: 0,
        ..registers()
    };
    let mut frame = save_registers(&saved);
    syscall_entry(&mut service, &mut context, b"init", &mut frame);
    assert_eq!(restore_registers(&frame), SavedRegisters { rax: 1, ..saved });
    let pcb = service.get_process(1).unwrap();
    assert_eq!(pcb.name, "init");
    assert_eq!(pcb.priority, ProcessPriority::Critical);
    assert_eq!(pcb.stack_size, 4096);
    assert_eq!(pcb.heap_size, 8192);
}

#[test]
fn dispatch_encodes_the_result() {
    let mut service = ProcessService::new();
    let mut context = ContextManager::new();
    assert_eq!(
        syscall_dispatch(&mut service, &mut context, &[], 99, 0, 0, 0, 0, 0, 0),
        0x8000_0000_0000_0000
    );
    assert_eq!(
        syscall_dispatch(&mut service, &mut context, &[], 7, 0, 0, 0, 0, 0, 0),
        0x8000_0000_0000_000A
    );
    assert_eq!(syscall_dispatch(&mut service, &mut context, &[], 0, 1, 2, 3, 4, 5, 6), 0);
    assert_eq!(
        syscall_dispatch(&mut service, &mut context, b"a", 4, 0, 1, 1, 128, 256, 0),
        1
    );
    assert_eq!(service.get_process(1).unwrap().memory_usage, 384);
}
