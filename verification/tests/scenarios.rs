use chip8_core::{Emulator, Fault};

fn pixel(e: &Emulator, x: usize, y: usize) -> bool {
    e.get_display()[y * 64 + x]
}

#[test]
fn load_index_then_clear_screen() {
    let mut e = Emulator::new();
    let program: Vec<u8> = vec![0xA2, 0x50, 0x00, 0xE0];
    e.load_data(&program).unwrap();
    e.tick().unwrap();
    e.tick().unwrap();
    assert_eq!(e.get_ireg(), 0x250);
    assert!(e.get_display().iter().all(|p| !p));
}

#[test]
fn subtract_program_sets_flag() {
    let mut e = Emulator::new();
    let program: Vec<u8> = vec![0x60, 0x0A, 0x61, 0x05, 0x80, 0x15];
    e.load_data(&program).unwrap();
    e.tick().unwrap();
    e.tick().unwrap();
    e.tick().unwrap();
    assert_eq!(e.get_register(0), 5);
    assert_eq!(e.get_register(0xF), 1);
}

#[test]
fn blocking_key_read_stalls_then_advances() {
    let mut e = Emulator::new();
    let program: Vec<u8> = vec![0xF0, 0x0A];
    e.load_data(&program).unwrap();

    // with no key held, the same instruction is re-fetched every step
    e.tick().unwrap();
    assert_eq!(e.get_pc(), 0x200);
    e.tick().unwrap();
    assert_eq!(e.get_pc(), 0x200);
    assert_eq!(e.get_register(0), 0);

    // once keys are held, the step stores the lowest held index
    e.keypress(9, true);
    e.keypress(3, true);
    e.tick().unwrap();
    assert_eq!(e.get_pc(), 0x202);
    assert_eq!(e.get_register(0), 3);
}

#[test]
fn draw_twice_restores_screen() {
    let mut e = Emulator::new();
    let sprite: Vec<u8> = vec![0xFF, 0x81];
    e.load_data(&sprite).unwrap();
    e.op_ANNN_ld_i_nnn(0x200);
    e.op_6XKK_ld_vx_kk(0, 10);
    e.op_6XKK_ld_vx_kk(1, 5);

    e.op_DXYN_drw(0, 1, 2).unwrap();
    assert_eq!(e.get_register(0xF), 0); // empty screen: no collision
    for bit in 0..8 {
        assert!(pixel(&e, 10 + bit, 5));
        assert_eq!(pixel(&e, 10 + bit, 6), bit == 0 || bit == 7);
    }

    // the identical draw toggles every pixel back off, and reports the
    // collision with what the first draw turned on
    e.op_DXYN_drw(0, 1, 2).unwrap();
    assert_eq!(e.get_register(0xF), 1);
    assert!(e.get_display().iter().all(|p| !p));
}

#[test]
fn sprite_wraps_around_the_right_edge() {
    let mut e = Emulator::new();
    let sprite: Vec<u8> = vec![0xFF];
    e.load_data(&sprite).unwrap();
    e.op_ANNN_ld_i_nnn(0x200);
    e.op_6XKK_ld_vx_kk(0, 60);
    e.op_6XKK_ld_vx_kk(1, 0);
    e.op_DXYN_drw(0, 1, 1).unwrap();

    for x in 0..64 {
        let lit = (60..64).contains(&x) || x < 4;
        assert_eq!(pixel(&e, x, 0), lit);
    }
    for y in 1..32 {
        for x in 0..64 {
            assert!(!pixel(&e, x, y));
        }
    }
}

#[test]
fn sprite_wraps_around_the_bottom_edge() {
    let mut e = Emulator::new();
    let sprite: Vec<u8> = vec![0x80, 0x80, 0x80];
    e.load_data(&sprite).unwrap();
    e.op_ANNN_ld_i_nnn(0x200);
    e.op_6XKK_ld_vx_kk(0, 0);
    e.op_6XKK_ld_vx_kk(1, 30);
    e.op_DXYN_drw(0, 1, 3).unwrap();

    assert!(pixel(&e, 0, 30));
    assert!(pixel(&e, 0, 31));
    assert!(pixel(&e, 0, 0)); // row 32 wraps to row 0
    assert!(!pixel(&e, 0, 1));
}

#[test]
fn draw_detects_partial_collision() {
    let mut e = Emulator::new();
    let sprites: Vec<u8> = vec![0xF0, 0x3C];
    e.load_data(&sprites).unwrap();
    e.op_6XKK_ld_vx_kk(0, 0);
    e.op_6XKK_ld_vx_kk(1, 0);

    e.op_ANNN_ld_i_nnn(0x200);
    e.op_DXYN_drw(0, 1, 1).unwrap(); // 0xF0: columns 0-3
    assert_eq!(e.get_register(0xF), 0);

    e.op_ANNN_ld_i_nnn(0x201);
    e.op_DXYN_drw(0, 1, 1).unwrap(); // 0x3C: columns 2-5, overlapping 2-3
    assert_eq!(e.get_register(0xF), 1);
    // overlapped pixels toggled off, the rest on
    for x in 0..8 {
        assert_eq!(pixel(&e, x, 0), x < 2 || (4 <= x && x < 6));
    }
}

#[test]
fn draw_zero_rows_marks_no_collision() {
    let mut e = Emulator::new();
    e.op_6XKK_ld_vx_kk(0xF, 1);
    e.op_DXYN_drw(0, 1, 0).unwrap();
    assert_eq!(e.get_register(0xF), 0);
    assert!(e.get_display().iter().all(|p| !p));
}

#[test]
fn clear_screen_turns_every_pixel_off() {
    let mut e = Emulator::new();
    let sprite: Vec<u8> = vec![0xFF];
    e.load_data(&sprite).unwrap();
    e.op_ANNN_ld_i_nnn(0x200);
    e.op_DXYN_drw(0, 1, 1).unwrap();
    assert!(pixel(&e, 0, 0));
    e.op_00E0_cls();
    assert!(e.get_display().iter().all(|p| !p));
}

#[test]
fn font_glyph_draws_as_expected() {
    let mut e = Emulator::new();
    e.op_6XKK_ld_vx_kk(0, 0);
    e.op_FX29_ld_d_vx(0); // I = address of glyph 0
    e.op_6XKK_ld_vx_kk(1, 0);
    e.op_6XKK_ld_vx_kk(2, 0);
    e.op_DXYN_drw(1, 2, 5).unwrap();
    // glyph 0 is a 4-wide box: F0 90 90 90 F0
    let rows: Vec<u8> = vec![0xF0, 0x90, 0x90, 0x90, 0xF0];
    for (y, row) in rows.iter().enumerate() {
        for x in 0..8 {
            let lit = row & (0x80 >> x) != 0;
            assert_eq!(pixel(&e, x, y), lit);
        }
    }
}

#[test]
fn unimplemented_opcode_reports_word_and_nibbles() {
    let mut e = Emulator::new();
    let program: Vec<u8> = vec![0x80, 0x08];
    e.load_data(&program).unwrap();
    assert_eq!(
        e.tick(),
        Err(Fault::UnimplementedOpcode { opcode: 0x8008, d1: 8, d2: 0, d3: 0, d4: 8 })
    );
}

#[test]
fn system_call_opcode_is_unimplemented() {
    let mut e = Emulator::new();
    let program: Vec<u8> = vec![0x01, 0x23];
    e.load_data(&program).unwrap();
    assert_eq!(
        e.tick(),
        Err(Fault::UnimplementedOpcode { opcode: 0x0123, d1: 0, d2: 1, d3: 2, d4: 3 })
    );
}

#[test]
fn zero_word_is_a_no_op() {
    let mut e = Emulator::new();
    assert_eq!(e.tick(), Ok(()));
    assert_eq!(e.get_pc(), 0x202);
}

#[test]
fn fetch_past_end_of_memory_is_fatal() {
    let mut e = Emulator::new();
    let program: Vec<u8> = vec![0x1F, 0xFF];
    e.load_data(&program).unwrap();
    e.tick().unwrap(); // jump to 0xFFF
    assert_eq!(e.get_pc(), 0xFFF);
    assert_eq!(e.tick(), Err(Fault::MemoryOutOfBounds { addr: 0x1000 }));
}

#[test]
fn call_and_return_through_program() {
    let mut e = Emulator::new();
    // 0x200: call 0x204; 0x202: jump 0x202; 0x204: return
    let program: Vec<u8> = vec![0x22, 0x04, 0x12, 0x02, 0x00, 0xEE];
    e.load_data(&program).unwrap();
    e.tick().unwrap();
    assert_eq!(e.get_pc(), 0x204);
    e.tick().unwrap();
    assert_eq!(e.get_pc(), 0x202); // back to the instruction after the call
}
