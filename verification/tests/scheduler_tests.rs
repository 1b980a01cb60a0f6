use emos::process::pcb::{
    CpuRegisters, ProcessControlBlock, ProcessId, ProcessPriority, ProcessState,
};
use emos::process::scheduler::{
    force_context_switch, get_current_process, get_scheduler_stats, set_scheduling_algorithm,
    should_preempt, tick, ProcessScheduler, SchedulingAlgorithm, TIME_SLICE,
};
use std::collections::BTreeMap;

fn pcb(pid: ProcessId, state: ProcessState, priority: ProcessPriority) -> ProcessControlBlock {
    ProcessControlBlock {
        pid,
        parent_pid: None,
        name: format!("p{}", pid),
        state,
        priority,
        registers: CpuRegisters::default(),
        stack_pointer: 0x7FFF_FFFF_F000,
        stack_size: 4096,
        heap_start: 0x1000_0000,
        heap_size: 8192,
        page_table: None,
        capabilities: Vec::new(),
        open_files: Vec::new(),
        working_directory: String::from("/"),
        exit_code: None,
        creation_time: 0,
        cpu_time: 0,
        memory_usage: 4096 + 8192,
    }
}

fn table(entries: Vec<ProcessControlBlock>) -> BTreeMap<ProcessId, ProcessControlBlock> {
    let mut map = BTreeMap::new();
    for entry in entries {
        map.insert(entry.pid, entry);
    }
    map
}

#[test]
fn round_robin_cycles_through_ready_processes() {
    let mut processes = table(vec![
        pcb(1, ProcessState::Ready, ProcessPriority::Normal),
        pcb(2, ProcessState::Ready, ProcessPriority::Normal),
        pcb(3, ProcessState::Ready, ProcessPriority::Normal),
    ]);
    let mut scheduler = ProcessScheduler::new();
    assert_eq!(scheduler.schedule_next(&mut processes), Some(1));
    assert_eq!(scheduler.schedule_next(&mut processes), Some(2));
    assert_eq!(scheduler.schedule_next(&mut processes), Some(3));
    assert_eq!(scheduler.schedule_next(&mut processes), Some(1));
    assert_eq!(scheduler.get_total_switches(), 4);
}

#[test]
fn round_robin_skips_processes_that_are_not_ready() {
    let mut processes = table(vec![
        pcb(1, ProcessState::Ready, ProcessPriority::Normal),
        pcb(2, ProcessState::Blocked, ProcessPriority::Normal),
        pcb(3, ProcessState::Terminated, ProcessPriority::Normal),
        pcb(4, ProcessState::Ready, ProcessPriority::Normal),
        pcb(5, ProcessState::Running, ProcessPriority::Normal),
    ]);
    let mut scheduler = ProcessScheduler::new();
    assert_eq!(scheduler.schedule_next(&mut processes), Some(1));
    assert_eq!(scheduler.schedule_next(&mut processes), Some(4));
    assert_eq!(scheduler.schedule_next(&mut processes), Some(1));
}

#[test]
fn round_robin_restarts_when_current_is_not_ready() {
    let mut processes = table(vec![
        pcb(1, ProcessState::Ready, ProcessPriority::Normal),
        pcb(2, ProcessState::Ready, ProcessPriority::Normal),
        pcb(3, ProcessState::Ready, ProcessPriority::Normal),
    ]);
    let mut scheduler = ProcessScheduler::new();
    assert_eq!(scheduler.schedule_next(&mut processes), Some(1));
    assert_eq!(scheduler.schedule_next(&mut processes), Some(2));
    processes.get_mut(&2).unwrap().state = ProcessState::Blocked;
    assert_eq!(scheduler.schedule_next(&mut processes), Some(1));
}

#[test]
fn schedule_next_without_ready_process_changes_nothing() {
    let mut processes = table(vec![
        pcb(1, ProcessState::Blocked, ProcessPriority::Normal),
        pcb(2, ProcessState::Terminated, ProcessPriority::High),
    ]);
    let mut scheduler = ProcessScheduler::new();
    scheduler.tick();
    assert_eq!(scheduler.schedule_next(&mut processes), None);
    let stats = scheduler.get_stats();
    assert_eq!(stats.current_process, None);
    assert_eq!(stats.time_slice_remaining, TIME_SLICE - 1);
    assert_eq!(stats.total_switches, 0);
    let mut empty: BTreeMap<ProcessId, ProcessControlBlock> = BTreeMap::new();
    assert_eq!(scheduler.schedule_next(&mut empty), None);
}

#[test]
fn priority_picks_highest_priority_lowest_pid() {
    let mut processes = table(vec![
        pcb(1, ProcessState::Ready, ProcessPriority::Normal),
        pcb(2, ProcessState::Ready, ProcessPriority::Critical),
        pcb(3, ProcessState::Ready, ProcessPriority::Critical),
    ]);
    let mut scheduler = ProcessScheduler::new();
    scheduler.set_algorithm(SchedulingAlgorithm::Priority);
    assert_eq!(scheduler.schedule_next(&mut processes), Some(2));
    assert_eq!(scheduler.schedule_next(&mut processes), Some(2));
    assert_eq!(scheduler.get_current_process(), Some(2));
}

#[test]
fn priority_ignores_processes_that_are_not_ready() {
    let mut processes = table(vec![
        pcb(1, ProcessState::Ready, ProcessPriority::Low),
        pcb(2, ProcessState::Blocked, ProcessPriority::Critical),
        pcb(3, ProcessState::Ready, ProcessPriority::High),
        pcb(4, ProcessState::Ready, ProcessPriority::Normal),
    ]);
    let mut scheduler = ProcessScheduler::new();
    scheduler.set_algorithm(SchedulingAlgorithm::Priority);
    assert_eq!(scheduler.schedule_next(&mut processes), Some(3));
}

#[test]
fn fcfs_picks_earliest_created_lowest_pid() {
    let mut first = pcb(1, ProcessState::Ready, ProcessPriority::Normal);
    first.creation_time = 30;
    let mut second = pcb(2, ProcessState::Ready, ProcessPriority::Normal);
    second.creation_time = 10;
    let mut third = pcb(3, ProcessState::Ready, ProcessPriority::Normal);
    third.creation_time = 10;
    let mut fourth = pcb(4, ProcessState::Blocked, ProcessPriority::Normal);
    fourth.creation_time = 1;
    let mut processes = table(vec![first, second, third, fourth]);
    let mut scheduler = ProcessScheduler::new();
    scheduler.set_algorithm(SchedulingAlgorithm::FirstComeFirstServed);
    assert_eq!(scheduler.schedule_next(&mut processes), Some(2));
}

#[test]
fn sjf_picks_smallest_footprint_lowest_pid() {
    let mut first = pcb(1, ProcessState::Ready, ProcessPriority::Normal);
    first.memory_usage = 5000;
    let mut second = pcb(2, ProcessState::Ready, ProcessPriority::Normal);
    second.memory_usage = 300;
    let mut third = pcb(3, ProcessState::Ready, ProcessPriority::Normal);
    third.memory_usage = 300;
    let mut fourth = pcb(4, ProcessState::Terminated, ProcessPriority::Normal);
    fourth.memory_usage = 1;
    let mut processes = table(vec![first, second, third, fourth]);
    let mut scheduler = ProcessScheduler::new();
    scheduler.set_algorithm(SchedulingAlgorithm::ShortestJobFirst);
    assert_eq!(scheduler.schedule_next(&mut processes), Some(2));
}

#[test]
fn schedule_next_leaves_the_table_alone() {
    let mut processes = table(vec![
        pcb(1, ProcessState::Ready, ProcessPriority::Normal),
        pcb(2, ProcessState::Ready, ProcessPriority::High),
    ]);
    let mut scheduler = ProcessScheduler::new();
    scheduler.schedule_next(&mut processes);
    assert_eq!(processes.len(), 2);
    assert_eq!(processes[&1].state, ProcessState::Ready);
    assert_eq!(processes[&2].state, ProcessState::Ready);
}

#[test]
fn preemption_is_due_after_a_full_time_slice() {
    let mut processes = table(vec![pcb(1, ProcessState::Ready, ProcessPriority::Normal)]);
    let mut scheduler = ProcessScheduler::new();
    assert_eq!(scheduler.schedule_next(&mut processes), Some(1));
    for _ in 0..99 {
        scheduler.tick();
        assert!(!scheduler.should_preempt());
    }
    scheduler.tick();
    assert!(scheduler.should_preempt());
    scheduler.tick();
    assert!(scheduler.should_preempt());
    assert_eq!(scheduler.get_stats().time_slice_remaining, 0);
}

#[test]
fn schedule_next_resets_the_time_slice() {
    let mut processes = table(vec![pcb(1, ProcessState::Ready, ProcessPriority::Normal)]);
    let mut scheduler = ProcessScheduler::new();
    scheduler.force_switch();
    assert!(scheduler.should_preempt());
    assert_eq!(scheduler.schedule_next(&mut processes), Some(1));
    assert!(!scheduler.should_preempt());
    assert_eq!(scheduler.get_stats().time_slice_remaining, 100);
}

#[test]
fn reset_time_slice_restores_the_full_slice() {
    let mut scheduler = ProcessScheduler::new();
    scheduler.tick();
    scheduler.tick();
    assert_eq!(scheduler.get_stats().time_slice_remaining, 98);
    scheduler.reset_time_slice();
    assert_eq!(scheduler.get_stats().time_slice_remaining, 100);
}

#[test]
fn new_scheduler_has_round_robin_and_a_full_slice() {
    let scheduler = ProcessScheduler::new();
    let stats = scheduler.get_stats();
    assert_eq!(stats.current_process, None);
    assert_eq!(stats.time_slice_remaining, 100);
    assert_eq!(stats.total_switches, 0);
    assert_eq!(stats.algorithm, SchedulingAlgorithm::RoundRobin);
}

#[test]
fn scheduler_functions_work_on_the_given_scheduler() {
    let mut scheduler = ProcessScheduler::new();
    set_scheduling_algorithm(&mut scheduler, SchedulingAlgorithm::ShortestJobFirst);
    assert_eq!(get_scheduler_stats(&scheduler).algorithm, SchedulingAlgorithm::ShortestJobFirst);
    assert!(!should_preempt(&scheduler));
    tick(&mut scheduler);
    assert_eq!(get_scheduler_stats(&scheduler).time_slice_remaining, 99);
    force_context_switch(&mut scheduler);
    assert!(should_preempt(&scheduler));
    assert_eq!(get_current_process(&scheduler), None);
}
