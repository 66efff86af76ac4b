use chip8_core::{Emulator, Fault};

#[test]
fn new_machine_is_zeroed() {
    let mut e = Emulator::new();
    assert_eq!(e.get_pc(), 0x200);
    assert_eq!(e.get_ireg(), 0);
    assert_eq!(e.get_delay_timer(), 0);
    assert_eq!(e.get_sound_timer(), 0);
    assert!(!e.sound_active());
    for i in 0..16 {
        assert_eq!(e.get_register(i), 0);
    }
    let display = e.get_display();
    assert_eq!(display.len(), 64 * 32);
    assert!(display.iter().all(|p| !p));
}

#[test]
fn font_table_installed_at_bottom_of_memory() {
    let mut e = Emulator::new();
    // glyph 0 occupies the first five bytes of memory
    e.op_ANNN_ld_i_nnn(0);
    e.op_FX65_ld_vx_i(4).unwrap();
    assert_eq!(e.get_register(0), 0xF0);
    assert_eq!(e.get_register(1), 0x90);
    assert_eq!(e.get_register(2), 0x90);
    assert_eq!(e.get_register(3), 0x90);
    assert_eq!(e.get_register(4), 0xF0);
}

#[test]
fn font_glyph_addressing() {
    let mut e = Emulator::new();
    e.op_6XKK_ld_vx_kk(0, 0xA);
    e.op_FX29_ld_d_vx(0);
    assert_eq!(e.get_ireg(), 50); // 0xA * 5
}

#[test]
fn load_rejects_oversized_image() {
    let mut e = Emulator::new();
    let too_big: Vec<u8> = vec![0u8; 4096 - 0x200 + 1];
    assert_eq!(e.load_data(&too_big), Err(Fault::ProgramTooLarge { len: 3585 }));
    let just_fits: Vec<u8> = vec![0u8; 4096 - 0x200];
    assert_eq!(e.load_data(&just_fits), Ok(()));
}

#[test]
fn key_skip_when_held() {
    let mut e = Emulator::new();
    e.op_6XKK_ld_vx_kk(0, 5);
    e.keypress(5, true);
    e.op_EX9E_skp_vx(0).unwrap();
    assert_eq!(e.get_pc(), 0x202);
    e.keypress(5, false);
    e.op_EX9E_skp_vx(0).unwrap();
    assert_eq!(e.get_pc(), 0x202); // not held: no skip
}

#[test]
fn key_skip_when_not_held() {
    let mut e = Emulator::new();
    e.op_6XKK_ld_vx_kk(0, 5);
    e.op_EXA1_sknp_vx(0).unwrap();
    assert_eq!(e.get_pc(), 0x202);
    e.keypress(5, true);
    e.op_EXA1_sknp_vx(0).unwrap();
    assert_eq!(e.get_pc(), 0x202); // held: no skip
}

#[test]
fn key_index_out_of_range_is_fatal() {
    let mut e = Emulator::new();
    e.op_6XKK_ld_vx_kk(0, 20);
    assert_eq!(e.op_EX9E_skp_vx(0), Err(Fault::KeyOutOfRange { value: 20 }));
    assert_eq!(e.op_EXA1_sknp_vx(0), Err(Fault::KeyOutOfRange { value: 20 }));
}

#[test]
fn conditional_skips() {
    let mut e = Emulator::new();
    e.op_6XKK_ld_vx_kk(0, 7);
    e.op_6XKK_ld_vx_kk(1, 7);
    e.op_3XKK_se_vx_kk(0, 7);
    assert_eq!(e.get_pc(), 0x202);
    e.op_3XKK_se_vx_kk(0, 8);
    assert_eq!(e.get_pc(), 0x202);
    e.op_4XKK_sne_vx_kk(0, 8);
    assert_eq!(e.get_pc(), 0x204);
    e.op_5XY0_se_vx_vy(0, 1);
    assert_eq!(e.get_pc(), 0x206);
    e.op_9XY0_sne_vx_vy(0, 1);
    assert_eq!(e.get_pc(), 0x206);
}

#[test]
fn jumps() {
    let mut e = Emulator::new();
    e.op_1NNN_jmp(0x456);
    assert_eq!(e.get_pc(), 0x456);
    e.op_6XKK_ld_vx_kk(0, 0x10);
    e.op_BNNN_jmp_v0_nnn(0x300);
    assert_eq!(e.get_pc(), 0x310);
}

#[test]
fn call_then_return_restores_pc() {
    let mut e = Emulator::new();
    e.op_2NNN_call(0x300).unwrap();
    assert_eq!(e.get_pc(), 0x300);
    e.op_00EE_ret().unwrap();
    assert_eq!(e.get_pc(), 0x200);
}

#[test]
fn stack_overflow_on_seventeenth_call() {
    let mut e = Emulator::new();
    for _ in 0..16 {
        e.op_2NNN_call(0x300).unwrap();
    }
    assert_eq!(e.op_2NNN_call(0x300), Err(Fault::StackOverflow));
}

#[test]
fn stack_underflow_on_return_without_call() {
    let mut e = Emulator::new();
    assert_eq!(e.op_00EE_ret(), Err(Fault::StackUnderflow));
}

#[test]
fn timers_decrement_once_per_tick() {
    let mut e = Emulator::new();
    e.op_6XKK_ld_vx_kk(0, 3);
    e.op_6XKK_ld_vx_kk(1, 2);
    e.op_FX15_ld_dt_vx(0);
    e.op_FX18_ld_st_vx(1);
    assert_eq!(e.get_delay_timer(), 3);
    assert_eq!(e.get_sound_timer(), 2);
    assert!(e.sound_active());

    e.tick_timers();
    assert_eq!(e.get_delay_timer(), 2);
    assert_eq!(e.get_sound_timer(), 1);
    assert!(e.sound_active());

    e.tick_timers();
    assert_eq!(e.get_sound_timer(), 0);
    assert!(!e.sound_active()); // the tone drops on the 1 -> 0 transition

    e.tick_timers();
    assert_eq!(e.get_delay_timer(), 0);
    assert_eq!(e.get_sound_timer(), 0);
}

#[test]
fn delay_timer_read_back() {
    let mut e = Emulator::new();
    e.op_6XKK_ld_vx_kk(0, 9);
    e.op_FX15_ld_dt_vx(0);
    e.op_FX07_ld_vx_dt(5);
    assert_eq!(e.get_register(5), 9);
}

#[test]
fn index_add_wraps_as_16_bit() {
    let mut e = Emulator::new();
    e.op_ANNN_ld_i_nnn(0xFFF);
    e.op_6XKK_ld_vx_kk(0, 255);
    let mut expected: u32 = 0xFFF;
    for _ in 0..300 {
        e.op_FX1E_add_i_vx(0);
        expected = (expected + 255) % 0x10000;
    }
    assert_eq!(e.get_ireg() as u32, expected);
}

#[test]
fn bulk_store_and_load_round_trip() {
    let mut e = Emulator::new();
    e.op_6XKK_ld_vx_kk(0, 11);
    e.op_6XKK_ld_vx_kk(1, 22);
    e.op_6XKK_ld_vx_kk(2, 33);
    e.op_6XKK_ld_vx_kk(3, 44);
    e.op_ANNN_ld_i_nnn(0x400);
    e.op_FX55_ld_i_vx(3).unwrap();
    for i in 0..4 {
        e.op_6XKK_ld_vx_kk(i, 0);
    }
    e.op_FX65_ld_vx_i(3).unwrap();
    assert_eq!(e.get_register(0), 11);
    assert_eq!(e.get_register(1), 22);
    assert_eq!(e.get_register(2), 33);
    assert_eq!(e.get_register(3), 44);
}

#[test]
fn memory_bound_faults_carry_the_address() {
    let mut e = Emulator::new();
    e.op_ANNN_ld_i_nnn(0xFFE);
    assert_eq!(e.op_FX33_ld_b_vx(0), Err(Fault::MemoryOutOfBounds { addr: 0x1000 }));
    e.op_ANNN_ld_i_nnn(0xFFD);
    assert_eq!(e.op_FX55_ld_i_vx(3), Err(Fault::MemoryOutOfBounds { addr: 0x1000 }));
    assert_eq!(e.op_FX65_ld_vx_i(3), Err(Fault::MemoryOutOfBounds { addr: 0x1000 }));
    assert_eq!(e.op_DXYN_drw(0, 1, 4), Err(Fault::MemoryOutOfBounds { addr: 0x1000 }));
}

#[test]
fn dispatch_ignores_wildcard_nibble_of_shift() {
    let mut e = Emulator::new();
    e.op_6XKK_ld_vx_kk(0xA, 5);
    // the y nibble of a shift is irrelevant: 8A16 and 8A76 both shift VA
    e.execute(0x8A16).unwrap();
    assert_eq!(e.get_register(0xA), 2);
    assert_eq!(e.get_register(0xF), 1);
    e.execute(0x8A76).unwrap();
    assert_eq!(e.get_register(0xA), 1);
    assert_eq!(e.get_register(0xF), 0);
}

#[test]
fn dispatch_subn_stores_into_vx() {
    let mut e = Emulator::new();
    e.op_6XKK_ld_vx_kk(0, 5);
    e.op_6XKK_ld_vx_kk(1, 10);
    e.execute(0x8017).unwrap();
    assert_eq!(e.get_register(0), 5); // V0 = V1 - V0
    assert_eq!(e.get_register(1), 10); // V1 untouched
    assert_eq!(e.get_register(0xF), 1);
}

#[test]
fn dispatch_rejects_malformed_family_words() {
    let mut e = Emulator::new();
    assert_eq!(
        e.execute(0x5121),
        Err(Fault::UnimplementedOpcode { opcode: 0x5121, d1: 5, d2: 1, d3: 2, d4: 1 })
    );
    assert_eq!(
        e.execute(0xE19F),
        Err(Fault::UnimplementedOpcode { opcode: 0xE19F, d1: 0xE, d2: 1, d3: 9, d4: 0xF })
    );
    assert_eq!(
        e.execute(0xF040),
        Err(Fault::UnimplementedOpcode { opcode: 0xF040, d1: 0xF, d2: 0, d3: 4, d4: 0 })
    );
}

#[test]
fn reset_restores_construction_state() {
    let mut e = Emulator::new();
    let program: Vec<u8> = vec![0x60, 0x0A, 0xA2, 0x50];
    e.load_data(&program).unwrap();
    e.tick().unwrap();
    e.tick().unwrap();
    e.keypress(4, true);
    e.op_FX18_ld_st_vx(0);

    e.reset();

    let fresh = Emulator::new();
    assert_eq!(e.get_pc(), fresh.get_pc());
    assert_eq!(e.get_ireg(), fresh.get_ireg());
    assert_eq!(e.get_delay_timer(), fresh.get_delay_timer());
    assert_eq!(e.get_sound_timer(), fresh.get_sound_timer());
    for i in 0..16 {
        assert_eq!(e.get_register(i), fresh.get_register(i));
    }
    assert_eq!(e.get_display(), fresh.get_display());
    // the program image is gone: stepping fetches the zero word, a no-op
    assert_eq!(e.tick(), Ok(()));
    assert_eq!(e.get_pc(), 0x202);
}
