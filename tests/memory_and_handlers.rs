use mips_emulator::cpu::MipsCpu;
use mips_emulator::cpu::Fault;
use mips_emulator::handlers::{complete_read_int, parse_int_line, read_string, ExternalHandler, HostRequest};
use mips_emulator::memory::{set_thing, unset_thing, Memory};

#[test]
fn unmapped_byte_reads_zero_without_mapping() {
    let m = Memory::new();
    assert_eq!(m.get_u8(0x1234_5678), 0);
    assert_eq!(m.get_i8(0xFFFF_FFFF), 0);
    assert_eq!(m.get_u8_o(0x1234_5678), None);
    assert!(m.mapped_pages().is_empty());
    assert!(!m.is_mapped(0x1234_5678));
}

#[test]
fn word_round_trip() {
    let mut m = Memory::new();
    m.set_u32_aligned(0x0002_0010, 0xDEAD_BEEF);
    assert_eq!(m.get_u32_aligned(0x0002_0010), 0xDEAD_BEEF);
    assert_eq!(m.get_u8(0x0002_0010), 0xEF);
    assert_eq!(m.get_u8(0x0002_0013), 0xDE);
    assert_eq!(m.mapped_pages(), vec![2u16]);
}

#[test]
fn half_round_trip_sign_extends() {
    let mut m = Memory::new();
    m.set_u16_aligned(0x10, 0x8001);
    assert_eq!(m.get_u16_aligned(0x10), 0x8001);
    assert_eq!(m.get_i16_aligned(0x10), -32767);
    m.set_u16_aligned(0x12, 0x7FFF);
    assert_eq!(m.get_i16_aligned(0x12), 0x7FFF);
}

#[test]
fn unaligned_word_spans_pages() {
    let mut m = Memory::new();
    m.set_u32(0x0000_FFFE, 0x0403_0201);
    assert_eq!(m.get_u32(0x0000_FFFE), 0x0403_0201);
    assert_eq!(m.get_u16(0x0000_FFFF), 0x0302);
    assert_eq!(m.mapped_pages().len(), 2);
    assert!(m.is_mapped(0x0001_0000));
}

#[test]
fn unload_page_keeps_others() {
    let mut m = Memory::new();
    m.set_u8(0x0001_0000, 1);
    m.set_u8(0x0002_0000, 2);
    m.set_u8(0x0003_0000, 3);
    m.unload_page_at_address(0x0001_1234);
    assert_eq!(m.get_u8(0x0001_0000), 0);
    assert_eq!(m.get_u8(0x0002_0000), 2);
    assert_eq!(m.get_u8(0x0003_0000), 3);
    assert_eq!(m.mapped_pages().len(), 2);
    m.unload_page_at_address(0x0009_0000);
    assert_eq!(m.mapped_pages().len(), 2);
    m.unload_all_pages();
    assert!(m.mapped_pages().is_empty());
    assert_eq!(m.get_u8(0x0003_0000), 0);
}

#[test]
fn memory_event_flag_is_lowered_after_page_creation() {
    let mut m = Memory::new();
    m.add_thing(true);
    m.set_u8(0x50, 1);
    assert_eq!(m.get_thing(), Some(false));
    m.remove_thing();
    assert_eq!(m.get_thing(), None);
    m.add_listener();
    assert!(m.listener_registered());
    m.remove_listener();
    assert!(!m.listener_registered());
}

#[test]
fn thing_flags_follow_registration() {
    let mut t = Some(false);
    set_thing(&mut t);
    assert_eq!(t, Some(true));
    unset_thing(&mut t);
    assert_eq!(t, Some(false));
    let mut none: Option<bool> = None;
    set_thing(&mut none);
    assert_eq!(none, None);
}

fn expected_random(seed: u128, lo: u32, hi: u32) -> u32 {
    let mut x = seed as u32;
    x = ((x >> 16) ^ x).wrapping_mul(0x45d9f3b);
    x = ((x >> 16) ^ x).wrapping_mul(0x45d9f3b);
    x = (x >> 16) ^ x;
    let x = (x >> 1) as i32;
    let dif = hi as i32 as i64 - lo as i32 as i64;
    if dif > 0 {
        ((x as i64 % dif) + lo as i32 as i64) as u32
    } else {
        0
    }
}

fn draw_ten(seed: u128) -> Vec<u32> {
    let mut cpu = MipsCpu::new();
    let mut handler = ExternalHandler::new(seed);
    cpu.get_general_registers_mut()[4] = 0;
    cpu.get_general_registers_mut()[5] = 100;
    let mut out = Vec::new();
    for _ in 0..10 {
        assert!(handler.system_call(&mut cpu, 99).is_none());
        out.push(cpu.get_general_registers()[2]);
    }
    out
}

#[test]
fn random_calls_are_in_range_and_reproducible() {
    let a = draw_ten(12345);
    let b = draw_ten(12345);
    assert_eq!(a, b);
    assert!(a.iter().all(|v| *v < 100));
    for (i, v) in a.iter().enumerate() {
        assert_eq!(*v, expected_random(12345 + i as u128, 0, 100));
    }
}

#[test]
fn random_with_empty_range_is_zero() {
    let h = ExternalHandler::new(5);
    assert_eq!(h.random(10, 10), 0);
    assert_eq!(h.random(10, 3), 0);
    assert_eq!(h.random((-20i32) as u32, (-10i32) as u32), expected_random(5, (-20i32) as u32, (-10i32) as u32));
    let v = h.random((-20i32) as u32, (-10i32) as u32) as i32;
    assert!(-20 <= v && v < -10);
}

#[test]
fn random_over_a_wide_range_stays_inside() {
    for seed in 0..50u128 {
        let h = ExternalHandler::new(seed);
        let v = h.random(i32::MIN as u32, 0) as i32;
        assert!(v < 0);
        assert_eq!(v as u32, expected_random(seed, i32::MIN as u32, 0));
        let w = h.random(i32::MIN as u32, i32::MAX as u32) as i32;
        assert!(w < i32::MAX);
    }
}

#[test]
fn framebuffer_scenario() {
    let mut cpu = MipsCpu::new();
    let mut h = ExternalHandler::new(0);
    cpu.get_general_registers_mut()[4] = 4;
    cpu.get_general_registers_mut()[5] = 4;
    assert!(h.system_call(&mut cpu, 150).is_none());
    cpu.get_general_registers_mut()[4] = 0x00FF00;
    assert!(h.system_call(&mut cpu, 156).is_none());
    cpu.get_general_registers_mut()[4] = 2;
    cpu.get_general_registers_mut()[5] = 2;
    cpu.get_general_registers_mut()[6] = 0x0000FF;
    assert!(h.system_call(&mut cpu, 151).is_none());
    assert!(matches!(h.system_call(&mut cpu, 153), Some(HostRequest::Present)));
    assert_eq!(h.image.len(), 16);
    for (i, p) in h.image.iter().enumerate() {
        if i == 10 {
            assert_eq!(*p, 0x0000FF);
        } else {
            assert_eq!(*p, 0x00FF00);
        }
    }
    assert!(cpu.get_fault().is_none());
}

#[test]
fn framebuffer_errors() {
    let mut cpu = MipsCpu::new();
    let mut h = ExternalHandler::new(0);
    cpu.get_general_registers_mut()[4] = 2;
    cpu.get_general_registers_mut()[5] = 2;
    h.system_call(&mut cpu, 150);
    cpu.get_general_registers_mut()[4] = 4;
    cpu.get_general_registers_mut()[5] = 0xFF_FFFF;
    h.system_call(&mut cpu, 152);
    assert!(cpu.get_fault().is_some());
    assert_eq!(h.image, vec![0, 0, 0, 0]);
    assert!(!cpu.running);
    assert!(!cpu.i_check);
}

#[test]
fn set_pixel_by_index_packs_colour() {
    let mut h = ExternalHandler::new(0);
    assert!(h.allocate_framebuffer(3, 1));
    assert!(h.set_pixel(1, 0xAB12_3456));
    assert_eq!(h.image, vec![0, 0x12_3456, 0]);
    assert!(!h.set_pixel(3, 1));
    h.fill(0x0100_0001);
    assert_eq!(h.image, vec![1, 1, 1]);
}

#[test]
fn read_string_stops_at_nul_and_limit() {
    let mut m = Memory::new();
    for (i, b) in b"hello\0world".iter().enumerate() {
        m.set_u8(0x200 + i as u32, *b);
    }
    assert_eq!(read_string(&m, 0x200), b"hello".to_vec());
    for i in 0..600u32 {
        m.set_u8(0x1000 + i, b'a');
    }
    assert_eq!(read_string(&m, 0x1000).len(), 500);
    m.set_u8(0xFFFF_FFFE, b'x');
    m.set_u8(0xFFFF_FFFF, b'y');
    assert_eq!(read_string(&m, 0xFFFF_FFFE), b"xy".to_vec());
    assert!(read_string(&m, 0x0500_0000).is_empty());
}

#[test]
fn print_string_request_carries_bytes() {
    let mut cpu = MipsCpu::new();
    let mut h = ExternalHandler::new(0);
    cpu.mem.set_u8(0x300, b'o');
    cpu.mem.set_u8(0x301, b'k');
    cpu.get_general_registers_mut()[4] = 0x300;
    match h.system_call(&mut cpu, 4) {
        Some(HostRequest::PrintString { bytes }) => assert_eq!(bytes, b"ok".to_vec()),
        _ => panic!("expected a string"),
    }
}

#[test]
fn host_requests_carry_registers() {
    let mut cpu = MipsCpu::new();
    let mut h = ExternalHandler::new(0);
    cpu.get_general_registers_mut()[4] = 0x161;
    cpu.get_general_registers_mut()[5] = 20;
    cpu.get_general_registers_mut()[6] = 30;
    assert!(matches!(h.system_call(&mut cpu, 104), Some(HostRequest::KeyPressed { key: 0x41 })));
    assert!(matches!(h.system_call(&mut cpu, 105), Some(HostRequest::Sleep { ms: 0x161 })));
    assert!(matches!(h.system_call(&mut cpu, 155), Some(HostRequest::HsvToRgb { h: 0x161, s: 20, v: 30 })));
    assert!(matches!(h.system_call(&mut cpu, 107), Some(HostRequest::TimeMillis)));
    assert!(cpu.get_fault().is_none());
}

#[test]
fn stop_system_calls() {
    let mut cpu = MipsCpu::new();
    let mut h = ExternalHandler::new(0);
    cpu.start();
    assert!(h.system_call(&mut cpu, 111).is_none());
    assert!(!cpu.running);
    assert!(cpu.get_fault().is_none());
}

#[test]
fn rate_limit_waits_for_the_rest() {
    let mut h = ExternalHandler::new(1000);
    assert_eq!(h.rate_limit_delay(1010, 50), 40);
    assert_eq!(h.last_106, 1050);
    assert_eq!(h.rate_limit_delay(1200, 50), 0);
    assert_eq!(h.last_106, 1200);
    assert_eq!(h.rate_limit_delay(1100, 30), 30);
}

#[test]
fn unaligned_half_store() {
    let mut m = Memory::new();
    m.set_u16(0x21, 0xA1B2);
    assert_eq!(m.get_u8(0x21), 0xB2);
    assert_eq!(m.get_u8(0x22), 0xA1);
    assert_eq!(m.get_u16(0x21), 0xA1B2);
    assert_eq!(m.get_u32(0x20), 0x00A1_B200);
}

#[test]
fn integer_lines_parse_signed_then_unsigned() {
    assert_eq!(parse_int_line(b"42"), Some(42));
    assert_eq!(parse_int_line(b"-7"), Some((-7i32) as u32));
    assert_eq!(parse_int_line(b"+15"), Some(15));
    assert_eq!(parse_int_line(b"-2147483648"), Some(0x8000_0000));
    assert_eq!(parse_int_line(b"4294967295"), Some(0xFFFF_FFFF));
    assert_eq!(parse_int_line(b"4294967296"), None);
    assert_eq!(parse_int_line(b"-2147483649"), None);
    assert_eq!(parse_int_line(b"12a"), None);
    assert_eq!(parse_int_line(b"-"), None);
    assert_eq!(parse_int_line(b""), None);
    assert_eq!(parse_int_line(b"99999999999999999999"), None);
}

#[test]
fn read_int_completion_sets_register_or_fails() {
    let mut cpu = MipsCpu::new();
    cpu.start();
    complete_read_int(&mut cpu, b"-3\r\n");
    assert_eq!(cpu.get_general_registers()[2], (-3i32) as u32);
    assert!(cpu.running);
    complete_read_int(&mut cpu, b"x\n");
    assert!(matches!(cpu.get_fault(), Some(Fault::SystemCall { call_id: 5, error_id: 0, .. })));
    assert!(!cpu.running);
}
