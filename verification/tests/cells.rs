use bft::cell::Cell;

#[test]
fn eight_bit_cells_wrap() {
    assert_eq!(255u8.wrapping_increment(), 0);
    assert_eq!(0u8.wrapping_decrement(), 255);
    assert_eq!(41u8.wrapping_increment(), 42);
    assert_eq!(42u8.wrapping_decrement(), 41);
}

#[test]
fn wider_cells_wrap_at_their_own_width() {
    assert_eq!(Cell::wrapping_increment(255u16), 256);
    assert_eq!(Cell::wrapping_increment(65535u16), 0);
    assert_eq!(Cell::wrapping_decrement(0u16), 65535);
    assert_eq!(Cell::wrapping_increment(u32::MAX), 0);
    assert_eq!(Cell::wrapping_decrement(0u32), u32::MAX);
    assert_eq!(Cell::wrapping_increment(65535u32), 65536);
}

#[test]
fn zero_is_zero() {
    assert_eq!(<u8 as Cell>::zero(), 0);
    assert_eq!(<u16 as Cell>::zero(), 0);
    assert_eq!(<u32 as Cell>::zero(), 0);
    assert!(Cell::is_zero(0u8));
    assert!(!Cell::is_zero(1u8));
    assert!(Cell::is_zero(0u16));
    assert!(!Cell::is_zero(256u16));
    assert!(Cell::is_zero(0u32));
    assert!(!Cell::is_zero(65536u32));
}

#[test]
fn bytes_go_in_whole_and_come_out_reduced() {
    assert_eq!(<u8 as Cell>::from_byte(200), 200u8);
    assert_eq!(<u16 as Cell>::from_byte(200), 200u16);
    assert_eq!(<u32 as Cell>::from_byte(255), 255u32);
    assert_eq!(Cell::to_byte(200u8), 200);
    assert_eq!(Cell::to_byte(0x1234u16), 0x34);
    assert_eq!(Cell::to_byte(256u16), 0);
    assert_eq!(Cell::to_byte(0xdead_beefu32), 0xef);
}

#[test]
fn increment_and_decrement_undo_each_other() {
    for v in 0..=255u8 {
        assert_eq!(v.wrapping_increment().wrapping_decrement(), v);
        assert_eq!(v.wrapping_decrement().wrapping_increment(), v);
    }
}
