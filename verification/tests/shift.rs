use evm_interp::{shift_left, shift_right, Word};

fn w(limbs: [u64; 4]) -> Word {
    Word { limbs }
}

fn small(x: u64) -> Word {
    w([x, 0, 0, 0])
}

#[test]
fn shift_by_zero_keeps_the_word() {
    let v = w([0x1234567890abcdef, 7, 0, 0xffff]);
    assert_eq!(shift_right(&v, 0), v);
    assert_eq!(shift_left(&v, 0), v);
}

#[test]
fn shift_right_moves_bytes_toward_the_front_of_the_big_endian_array() {
    assert_eq!(shift_right(&small(1), 8), small(0x100));
    assert_eq!(shift_right(&small(1), 9), small(0x80_0000));
    assert_eq!(shift_right(&small(0x102), 4), small(0x10_2000));
    assert_eq!(shift_right(&small(0xff), 3), small(0xe01f));
}

#[test]
fn shift_left_moves_bytes_toward_the_back_of_the_big_endian_array() {
    assert_eq!(shift_left(&small(1), 8), small(0));
    assert_eq!(shift_left(&small(1), 9), small(0));
    assert_eq!(shift_left(&small(0x102), 4), small(0x1020));
    assert_eq!(shift_left(&small(0xff), 3), small(0xf8));
}

#[test]
fn shifts_of_a_top_bit_word() {
    let top = w([0, 0, 0, 0x8000_0000_0000_0000]);
    assert_eq!(shift_right(&top, 1), w([0, 0, 0, 0x4000_0000_0000_0000]));
    assert_eq!(shift_left(&top, 1), w([0, 0, 0, 0x1_0000_0000_0000]));
}

#[test]
fn shifts_across_limbs() {
    let v = small(0x1234567890abcdef);
    assert_eq!(shift_right(&v, 12), w([0x638507b9dafc0e00, 0x2041, 0, 0]));
    assert_eq!(shift_left(&v, 12), small(0x2041638507b9da));
    let ones = w([u64::MAX; 4]);
    assert_eq!(shift_right(&ones, 100), w([0, 0xffffff0f00000000, u64::MAX, u64::MAX]));
    assert_eq!(shift_left(&ones, 100), w([u64::MAX, u64::MAX, 0xf0ffffff, 0]));
}

#[test]
fn shifts_past_the_width_give_zero() {
    let ones = w([u64::MAX; 4]);
    for places in [256usize, 260, 263] {
        assert_eq!(shift_right(&ones, places), small(0));
        assert_eq!(shift_left(&ones, places), small(0));
    }
}

#[test]
fn two_shifts_compose() {
    let v = w([0x0123_4567_89ab_cdef, 0xfedc_ba98_7654_3210, 0x1111_2222_3333_4444, 0x5555_6666_7777_8888]);
    assert_eq!(shift_right(&shift_right(&v, 5), 17), shift_right(&v, 22));
    assert_eq!(shift_left(&shift_left(&v, 5), 17), shift_left(&v, 22));
}

#[test]
fn right_after_left_keeps_surviving_bits() {
    let v = small(0xff);
    // byte-reversed, 0xff is the top byte; shifting it up by 4 loses its high nibble
    assert_eq!(shift_right(&shift_left(&v, 4), 4), small(0x0f));
    assert_eq!(shift_left(&shift_right(&v, 4), 4), small(0xff));
}

#[test]
fn whole_byte_right_shift_multiplies() {
    let v = w([0x1122_3344_5566_7788, 0x99aa_bbcc_ddee_ff00, 0x0102_0304_0506_0708, 0x0a0b_0c0d_0e0f_1011]);
    assert_eq!(shift_right(&v, 64), w([0, 0x1122_3344_5566_7788, 0x99aa_bbcc_ddee_ff00, 0x0102_0304_0506_0708]));
    assert_eq!(shift_right(&v, 8), w([0x2233_4455_6677_8800, 0xaabb_ccdd_eeff_0011, 0x0203_0405_0607_0899, 0x0b0c_0d0e_0f10_1101]));
    assert_eq!(shift_right(&small(0xffff_ffff), 224), w([0, 0, 0, 0xffff_ffff_0000_0000]));
}

#[test]
fn whole_byte_left_shift_divides() {
    assert_eq!(shift_left(&small(0x1234), 8), small(0x12));
    let v = w([0x1122_3344_5566_7788, 0x99aa_bbcc_ddee_ff00, 0x0102_0304_0506_0708, 0x0a0b_0c0d_0e0f_1011]);
    assert_eq!(shift_left(&v, 64), w([0x99aa_bbcc_ddee_ff00, 0x0102_0304_0506_0708, 0x0a0b_0c0d_0e0f_1011, 0]));
}

#[test]
fn words_print_in_decimal() {
    assert_eq!(small(0).to_decimal(), "0");
    assert_eq!(small(1234).to_decimal(), "1234");
    assert_eq!(w([0, 1, 0, 0]).to_decimal(), "18446744073709551616");
    assert_eq!(
        w([u64::MAX; 4]).to_decimal(),
        "115792089237316195423570985008687907853269984665640564039457584007913129639935"
    );
}
