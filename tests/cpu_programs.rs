use mips_emulator::cpu::{Fault, MipsCpu, RunExit, StepOutcome};
use mips_emulator::handlers::{ExternalHandler, HostRequest};

fn load(cpu: &mut MipsCpu, words: &[u32]) {
    for (i, w) in words.iter().enumerate() {
        cpu.get_mem_controller().set_u32_aligned((i * 4) as u32, *w);
    }
}

fn run_program(words: &[u32]) -> (MipsCpu, Option<RunExit>) {
    let mut cpu = MipsCpu::new();
    let mut handler = ExternalHandler::new(1);
    load(&mut cpu, words);
    let exit = cpu.start_local(&mut handler, 10_000);
    (cpu, exit)
}

#[test]
fn arithmetic_program_adds_and_stops() {
    let (cpu, exit) = run_program(&[0x34010005, 0x34020007, 0x00221820, 0x68000000]);
    assert!(matches!(exit, Some(RunExit::Finished)));
    assert_eq!(cpu.get_general_registers()[3], 12);
    assert!(!cpu.is_running());
    assert!(cpu.get_fault().is_none());
}

#[test]
fn branch_program_counts_down_to_zero() {
    let (cpu, exit) = run_program(&[0x20010003, 0x2021FFFF, 0x1420FFFE, 0x68000000]);
    assert!(matches!(exit, Some(RunExit::Finished)));
    assert_eq!(cpu.get_general_registers()[1], 0);
}

#[test]
fn memory_program_stores_and_loads_one_page() {
    let (cpu, exit) = run_program(&[0x3401BEEF, 0xAC010100, 0x8C020100, 0x68000000]);
    assert!(matches!(exit, Some(RunExit::Finished)));
    assert_eq!(cpu.get_general_registers()[2], 0xBEEF);
    assert_eq!(cpu.get_mem().mapped_pages(), vec![0u16]);
    assert_eq!(cpu.get_mem().get_u32_aligned(0x400), 0xBEEF);
}

#[test]
fn jal_links_next_instruction() {
    let (cpu, _) = run_program(&[0x00000000, 0x0C000002, 0x68000000, 0x68000000, 0x68000000]);
    assert_eq!(cpu.get_general_registers()[31], 8);
    assert_eq!(cpu.get_pc(), 20);
}

#[test]
fn register_zero_is_writable() {
    let (cpu, _) = run_program(&[0x34000005, 0x68000000]);
    assert_eq!(cpu.get_general_registers()[0], 5);
}

#[test]
fn lhi_then_llo_builds_constant() {
    let (cpu, _) = run_program(&[0x64011234, 0x60015678, 0x68000000]);
    assert_eq!(cpu.get_general_registers()[1], 0x12345678);
}

#[test]
fn misaligned_word_load_is_memory_error_one() {
    let (cpu, exit) = run_program(&[0x34010001, 0x8C220000, 0x68000000]);
    assert!(matches!(exit, Some(RunExit::Finished)));
    assert!(matches!(cpu.get_fault(), Some(Fault::Memory { id: 1 })));
    assert_eq!(cpu.get_general_registers()[2], 0);
    assert_eq!(cpu.get_pc(), 8);
}

#[test]
fn misaligned_load_without_checking_reads_bytes() {
    let mut cpu = MipsCpu::new();
    let mut handler = ExternalHandler::new(1);
    load(&mut cpu, &[0x34010001, 0x8C220000, 0x68000000]);
    cpu.set_alignment_check(false);
    cpu.start_local(&mut handler, 100);
    assert!(cpu.get_fault().is_none());
    assert_eq!(cpu.get_general_registers()[2], 0x0034_0100);
}

#[test]
fn misaligned_store_is_memory_error_three() {
    let (cpu, _) = run_program(&[0x34010002, 0xAC220000, 0x68000000]);
    assert!(matches!(cpu.get_fault(), Some(Fault::Memory { id: 3 })));
}

#[test]
fn divide_by_zero_keeps_hi_and_lo() {
    let mut cpu = MipsCpu::new();
    let mut handler = ExternalHandler::new(1);
    load(&mut cpu, &[0x0020181A, 0x68000000]);
    *cpu.get_hi_register_mut() = 7;
    *cpu.get_lo_register_mut() = 9;
    cpu.start_local(&mut handler, 100);
    assert!(matches!(cpu.get_fault(), Some(Fault::Arithmetic { id: 0 })));
    assert_eq!(cpu.get_hi_register(), 7);
    assert_eq!(cpu.get_lo_register(), 9);
    assert!(!cpu.is_running());
}

#[test]
fn signed_division_truncates_toward_zero() {
    let mut cpu = MipsCpu::new();
    let mut handler = ExternalHandler::new(1);
    load(&mut cpu, &[0x0020181A, 0x68000000]);
    cpu.get_general_registers_mut()[1] = (-7i32) as u32;
    cpu.get_general_registers_mut()[3] = 2;
    cpu.start_local(&mut handler, 100);
    assert_eq!(cpu.get_lo_register() as i32, -3);
    assert_eq!(cpu.get_hi_register() as i32, -1);
}

#[test]
fn unsigned_division_and_multiplication() {
    let mut cpu = MipsCpu::new();
    let mut handler = ExternalHandler::new(1);
    // DIVU r1 by r3, then MULT r1 * r2, MFHI r4, MFLO r5
    load(&mut cpu, &[0x0020181B, 0x00220018, 0x00002010, 0x00002812, 0x68000000]);
    cpu.get_general_registers_mut()[1] = 100;
    cpu.get_general_registers_mut()[2] = (-3i32) as u32;
    cpu.get_general_registers_mut()[3] = 7;
    cpu.start_local(&mut handler, 100);
    assert_eq!(cpu.get_general_registers()[4], 0xFFFF_FFFF);
    assert_eq!(cpu.get_general_registers()[5], (-300i32) as u32);
}

#[test]
fn multu_splits_product() {
    let mut cpu = MipsCpu::new();
    let mut handler = ExternalHandler::new(1);
    load(&mut cpu, &[0x00220019, 0x68000000]);
    cpu.get_general_registers_mut()[1] = 0x8000_0000;
    cpu.get_general_registers_mut()[2] = 6;
    cpu.start_local(&mut handler, 100);
    assert_eq!(cpu.get_hi_register(), 3);
    assert_eq!(cpu.get_lo_register(), 0);
}

#[test]
fn shifts_logic_and_comparisons() {
    let mut cpu = MipsCpu::new();
    let mut handler = ExternalHandler::new(1);
    load(
        &mut cpu,
        &[
            0x00012103, // SRA r4, r1, 4
            0x00012902, // SRL r5, r1, 4
            0x00223027, // NOR r6, r1, r2
            0x0022382A, // SLT r7, r1, r2
            0x00224029, // SLTU r8, r1, r2
            0x00224822, // SUB r9, r1, r2
            0x68000000,
        ],
    );
    cpu.get_general_registers_mut()[1] = 0xF000_0000;
    cpu.get_general_registers_mut()[2] = 0x0000_000F;
    cpu.start_local(&mut handler, 100);
    let r = cpu.get_general_registers();
    assert_eq!(r[4], 0xFF00_0000);
    assert_eq!(r[5], 0x0F00_0000);
    assert_eq!(r[6], 0x0FFF_FFF0);
    assert_eq!(r[7], 1);
    assert_eq!(r[8], 0);
    assert_eq!(r[9], 0xEFFF_FFF1);
}

#[test]
fn signed_loads_extend() {
    let mut cpu = MipsCpu::new();
    let mut handler = ExternalHandler::new(1);
    // LB r1, 0x40(r0); LH r2, 0x40(r0); LHU r3, 0x40(r0); LBU r4, 0x40(r0)
    load(&mut cpu, &[0x80010040, 0x84020040, 0x94030040, 0x90040040, 0x68000000]);
    cpu.mem.set_u16_aligned(0x100, 0x8081);
    cpu.start_local(&mut handler, 100);
    let r = cpu.get_general_registers();
    assert_eq!(r[1], 0xFFFF_FF81);
    assert_eq!(r[2], 0xFFFF_8081);
    assert_eq!(r[3], 0x8081);
    assert_eq!(r[4], 0x81);
}

#[test]
fn invalid_opcode_stops_with_fault() {
    let (cpu, exit) = run_program(&[0xFC000000]);
    assert!(matches!(exit, Some(RunExit::Finished)));
    assert!(matches!(cpu.get_fault(), Some(Fault::InvalidOpcode { op: 0xFC000000, address: 0 })));
}

#[test]
fn unknown_system_call_is_an_error() {
    let (cpu, _) = run_program(&[0x68000309]);
    assert!(matches!(cpu.get_fault(), Some(Fault::SystemCall { call_id: 777, error_id: 0, .. })));
    assert!(!cpu.is_running());
}

#[test]
fn host_system_call_returns_request() {
    let mut cpu = MipsCpu::new();
    let mut handler = ExternalHandler::new(1);
    load(&mut cpu, &[0x3404FFFF, 0x68000001, 0x68000000]);
    let exit = cpu.start_local(&mut handler, 100);
    match exit {
        Some(RunExit::Host { call_id: 1, request: HostRequest::PrintInt { value } }) => {
            assert_eq!(value, 0xFFFF)
        }
        _ => panic!("expected a print request"),
    }
    assert!(cpu.is_running());
    assert!(matches!(cpu.run(&mut handler, 100), RunExit::Finished));
    assert!(!cpu.is_running());
}

#[test]
fn pause_cycle_on_spinning_program() {
    let mut cpu = MipsCpu::new();
    let mut handler = ExternalHandler::new(1);
    load(&mut cpu, &[0x1000FFFF]);
    assert!(matches!(cpu.start_local(&mut handler, 1000), Some(RunExit::OutOfBudget)));
    assert!(cpu.is_running());
    cpu.pause();
    assert!(matches!(cpu.run(&mut handler, 1000), RunExit::Paused));
    assert!(cpu.is_paused());
    assert!(cpu.paused_or_stopped());
    cpu.resume();
    assert!(matches!(cpu.run(&mut handler, 1000), RunExit::OutOfBudget));
    assert!(!cpu.is_paused());
    cpu.stop();
    assert!(matches!(cpu.run(&mut handler, 1000), RunExit::Finished));
    assert!(!cpu.is_running());
    assert_eq!(cpu.get_pc(), 0);
}

#[test]
fn stop_while_paused_finishes() {
    let mut cpu = MipsCpu::new();
    let mut handler = ExternalHandler::new(1);
    load(&mut cpu, &[0x1000FFFF]);
    cpu.start_local(&mut handler, 10);
    cpu.pause_exclude_memory_event();
    assert!(matches!(cpu.run(&mut handler, 10), RunExit::Paused));
    cpu.stop();
    assert!(matches!(cpu.run(&mut handler, 10), RunExit::Finished));
    assert!(!cpu.is_running());
}

#[test]
fn start_refuses_when_not_idle() {
    let mut cpu = MipsCpu::new();
    let mut handler = ExternalHandler::new(1);
    load(&mut cpu, &[0x1000FFFF]);
    assert!(cpu.start());
    assert!(!cpu.start());
    assert!(cpu.start_local(&mut handler, 10).is_none());
}

#[test]
fn step_runs_one_pass() {
    let mut cpu = MipsCpu::new();
    let mut handler = ExternalHandler::new(1);
    load(&mut cpu, &[0x34010005, 0x68000000]);
    assert!(cpu.step());
    assert!(cpu.is_running());
    assert!(matches!(cpu.run(&mut handler, 100), RunExit::Finished));
    assert_eq!(cpu.get_general_registers()[1], 5);
}

#[test]
fn clear_zeroes_state_and_memory() {
    let (mut cpu, _) = run_program(&[0x3401BEEF, 0xAC010100, 0x68000000]);
    *cpu.get_pc_mut() = 40;
    cpu.clear();
    assert!(cpu.get_general_registers().iter().all(|r| *r == 0));
    assert_eq!(cpu.get_pc(), 0);
    assert_eq!(cpu.get_hi_register(), 0);
    assert_eq!(cpu.get_lo_register(), 0);
    assert!(cpu.get_mem().mapped_pages().is_empty());
}

#[test]
fn reset_keeps_memory() {
    let (mut cpu, _) = run_program(&[0x3401BEEF, 0x68000000]);
    cpu.reset();
    assert_eq!(cpu.get_general_registers()[1], 0);
    assert_eq!(cpu.get_mem().get_u32_aligned(0), 0x3401BEEF);
}

#[test]
fn new_cpu_is_idle() {
    let cpu = MipsCpu::new();
    assert!(!cpu.is_running());
    assert!(cpu.is_paused());
    assert!(!cpu.is_within_memory_event());
    assert_eq!(cpu.get_pc(), 0);
}

#[test]
fn step_instruction_reports_traps() {
    let mut cpu = MipsCpu::new();
    load(&mut cpu, &[0x34010005, 0x68000063]);
    assert_eq!(cpu.step_instruction(), StepOutcome::Done);
    assert_eq!(cpu.get_general_registers()[1], 5);
    assert_eq!(cpu.step_instruction(), StepOutcome::Trap { call_id: 99 });
    assert_eq!(cpu.get_pc(), 8);
}

#[test]
fn fault_reports_stop_the_cpu() {
    let mut cpu = MipsCpu::new();
    cpu.start();
    cpu.memory_error(3);
    assert!(matches!(cpu.get_fault(), Some(Fault::Memory { id: 3 })));
    assert!(!cpu.running);
    let mut cpu = MipsCpu::new();
    cpu.arithmetic_error(0);
    assert!(matches!(cpu.get_fault(), Some(Fault::Arithmetic { id: 0 })));
    let mut cpu = MipsCpu::new();
    cpu.system_call_error(5, 0, "unable to parse integer");
    match cpu.get_fault() {
        Some(Fault::SystemCall { call_id, error_id, message }) => {
            assert_eq!(*call_id, 5);
            assert_eq!(*error_id, 0);
            assert_eq!(message, "unable to parse integer");
        }
        _ => panic!("expected a system call error"),
    }
    let mut cpu = MipsCpu::new();
    load(&mut cpu, &[0x12345678, 0x9ABCDEF0]);
    *cpu.get_pc_mut() = 8;
    cpu.invalid_op_code();
    assert!(matches!(cpu.get_fault(), Some(Fault::InvalidOpcode { op: 0x9ABCDEF0, address: 4 })));
}

#[test]
fn jump_register_and_link() {
    // r2 = 12; JALR r2 at 4 jumps to 12 and links 8; J at 12 skips the trap at 16
    let (cpu, _) = run_program(&[0x3402000C, 0x00400009, 0x68000000, 0x08000001, 0x68000000, 0x68000000]);
    assert_eq!(cpu.get_general_registers()[31], 8);
    assert_eq!(cpu.get_pc(), 24);
}

#[test]
fn bgtz_and_blez_compare_unsigned() {
    let (cpu, _) = run_program(&[0x64018000, 0x1C200001, 0x34020001, 0x18600001, 0x34040001, 0x68000000]);
    assert_eq!(cpu.get_general_registers()[2], 0);
    assert_eq!(cpu.get_general_registers()[4], 0);
    assert_eq!(cpu.get_pc(), 24);
}

#[test]
fn jalr_through_r31_reads_the_link() {
    let (cpu, _) = run_program(&[0x341F0064, 0x03E00009, 0x68000000]);
    assert_eq!(cpu.get_general_registers()[31], 8);
    assert_eq!(cpu.get_pc(), 12);
}

#[test]
fn budget_counts_instructions() {
    let mut cpu = MipsCpu::new();
    let mut handler = ExternalHandler::new(1);
    load(&mut cpu, &[0x20210001, 0x1000FFFE]);
    assert!(matches!(cpu.start_local(&mut handler, 10), Some(RunExit::OutOfBudget)));
    assert_eq!(cpu.get_general_registers()[1], 5);
    assert!(matches!(cpu.run(&mut handler, 0), RunExit::OutOfBudget));
    assert_eq!(cpu.get_general_registers()[1], 5);
}
