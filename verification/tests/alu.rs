use chip8_core::Emulator;

#[test]
fn add_wraps_and_sets_carry() {
    let mut e = Emulator::new();
    e.op_6XKK_ld_vx_kk(0, 200);
    e.op_6XKK_ld_vx_kk(1, 100);
    e.op_8XY4_add_vx_vy(0, 1);
    assert_eq!(e.get_register(0), 44); // (200 + 100) mod 256
    assert_eq!(e.get_register(0xF), 1);
}

#[test]
fn add_without_carry() {
    let mut e = Emulator::new();
    e.op_6XKK_ld_vx_kk(0, 200);
    e.op_6XKK_ld_vx_kk(1, 55);
    e.op_8XY4_add_vx_vy(0, 1);
    assert_eq!(e.get_register(0), 255);
    assert_eq!(e.get_register(0xF), 0);
}

#[test]
fn add_carry_boundary() {
    let mut e = Emulator::new();
    e.op_6XKK_ld_vx_kk(0, 200);
    e.op_6XKK_ld_vx_kk(1, 56);
    e.op_8XY4_add_vx_vy(0, 1);
    assert_eq!(e.get_register(0), 0); // 256 mod 256
    assert_eq!(e.get_register(0xF), 1);
}

#[test]
fn add_immediate_wraps_and_leaves_flag() {
    let mut e = Emulator::new();
    e.op_6XKK_ld_vx_kk(0xF, 1);
    e.op_6XKK_ld_vx_kk(0, 255);
    e.op_7XKK_add_vx_kk(0, 1);
    assert_eq!(e.get_register(0), 0);
    // the immediate add does not touch the flag register
    assert_eq!(e.get_register(0xF), 1);
}

#[test]
fn sub_no_borrow_sets_flag() {
    let mut e = Emulator::new();
    e.op_6XKK_ld_vx_kk(0, 10);
    e.op_6XKK_ld_vx_kk(1, 5);
    e.op_8XY5_sub_vx_vy(0, 1);
    assert_eq!(e.get_register(0), 5);
    assert_eq!(e.get_register(0xF), 1);
}

#[test]
fn sub_with_borrow_wraps() {
    let mut e = Emulator::new();
    e.op_6XKK_ld_vx_kk(0, 5);
    e.op_6XKK_ld_vx_kk(1, 10);
    e.op_8XY5_sub_vx_vy(0, 1);
    assert_eq!(e.get_register(0), 251); // (5 - 10) mod 256
    assert_eq!(e.get_register(0xF), 0);
}

#[test]
fn sub_equal_values_counts_as_no_borrow() {
    let mut e = Emulator::new();
    e.op_6XKK_ld_vx_kk(0, 7);
    e.op_6XKK_ld_vx_kk(1, 7);
    e.op_8XY5_sub_vx_vy(0, 1);
    assert_eq!(e.get_register(0), 0);
    assert_eq!(e.get_register(0xF), 1); // 7 >= 7
}

#[test]
fn subn_reverse_subtract() {
    let mut e = Emulator::new();
    e.op_6XKK_ld_vx_kk(0, 5);
    e.op_6XKK_ld_vx_kk(1, 10);
    e.op_8XY7_subn_vx_vy(0, 1);
    assert_eq!(e.get_register(0), 5); // 10 - 5, stored in Vx
    assert_eq!(e.get_register(0xF), 1);
}

#[test]
fn subn_with_borrow() {
    let mut e = Emulator::new();
    e.op_6XKK_ld_vx_kk(0, 10);
    e.op_6XKK_ld_vx_kk(1, 5);
    e.op_8XY7_subn_vx_vy(0, 1);
    assert_eq!(e.get_register(0), 251); // (5 - 10) mod 256
    assert_eq!(e.get_register(0xF), 0);
}

#[test]
fn shr_flag_is_preshift_low_bit() {
    let mut e = Emulator::new();
    e.op_6XKK_ld_vx_kk(0, 5);
    e.op_8XY6_shr_vx(0);
    assert_eq!(e.get_register(0), 2);
    assert_eq!(e.get_register(0xF), 1);

    e.op_6XKK_ld_vx_kk(1, 4);
    e.op_8XY6_shr_vx(1);
    assert_eq!(e.get_register(1), 2);
    assert_eq!(e.get_register(0xF), 0);
}

#[test]
fn shl_flag_is_preshift_high_bit() {
    let mut e = Emulator::new();
    e.op_6XKK_ld_vx_kk(0, 0x81);
    e.op_8XYE_shl_vx(0);
    assert_eq!(e.get_register(0), 0x02);
    assert_eq!(e.get_register(0xF), 1);

    e.op_6XKK_ld_vx_kk(1, 0x40);
    e.op_8XYE_shl_vx(1);
    assert_eq!(e.get_register(1), 0x80);
    assert_eq!(e.get_register(0xF), 0);
}

#[test]
fn bitwise_or_and_xor() {
    let mut e = Emulator::new();
    e.op_6XKK_ld_vx_kk(0, 0b1100);
    e.op_6XKK_ld_vx_kk(1, 0b1010);
    e.op_8XY1_or_vx_vy(0, 1);
    assert_eq!(e.get_register(0), 0b1110);

    e.op_6XKK_ld_vx_kk(2, 0b1100);
    e.op_8XY2_and_vx_vy(2, 1);
    assert_eq!(e.get_register(2), 0b1000);

    e.op_6XKK_ld_vx_kk(3, 0b1100);
    e.op_8XY3_xor_vx_vy(3, 1);
    assert_eq!(e.get_register(3), 0b0110);
}

#[test]
fn copy_register() {
    let mut e = Emulator::new();
    e.op_6XKK_ld_vx_kk(1, 42);
    e.op_8XY0_ld_vx_vy(0, 1);
    assert_eq!(e.get_register(0), 42);
}

#[test]
fn bcd_digits_of_255() {
    assert_eq!(Emulator::easy_to_read_bcd(255), (2, 5, 5));
}

#[test]
fn bcd_digits_of_7() {
    assert_eq!(Emulator::easy_to_read_bcd(7), (0, 0, 7));
}

#[test]
fn bcd_digits_reconstruct() {
    let samples: Vec<u8> = vec![0, 1, 9, 10, 99, 100, 101, 159, 200, 255];
    for v in samples {
        let (h, t, o) = Emulator::easy_to_read_bcd(v);
        assert!(h <= 9 && t <= 9 && o <= 9);
        assert_eq!(h as u16 * 100 + t as u16 * 10 + o as u16, v as u16);
    }
}

#[test]
fn bcd_written_to_memory() {
    let mut e = Emulator::new();
    e.op_ANNN_ld_i_nnn(0x300);
    e.op_6XKK_ld_vx_kk(0, 159);
    e.op_FX33_ld_b_vx(0).unwrap();
    // read the three digits back through the bulk load
    e.op_FX65_ld_vx_i(2).unwrap();
    assert_eq!(e.get_register(0), 1);
    assert_eq!(e.get_register(1), 5);
    assert_eq!(e.get_register(2), 9);
}

#[test]
fn random_masked_with_zero_is_zero() {
    let mut e = Emulator::new();
    e.op_6XKK_ld_vx_kk(0, 255);
    e.op_CXKK_ld_vx_rand_and_kk(0, 0x00);
    assert_eq!(e.get_register(0), 0);
}

#[test]
fn random_respects_mask() {
    let mut e = Emulator::new();
    for _ in 0..32 {
        e.op_CXKK_ld_vx_rand_and_kk(0, 0x0F);
        assert!(e.get_register(0) <= 0x0F);
    }
}
