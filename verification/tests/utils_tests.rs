use bare_runtime::utils::{memset, set_bits_with_offset, strlen};

#[test]
fn set_bits_replaces_the_field() {
    assert_eq!(set_bits_with_offset(0, 0, 1, 1), 1);
    assert_eq!(set_bits_with_offset(0xFFFF_FFFF, 4, 4, 0), 0xFFFF_FF0F);
    assert_eq!(set_bits_with_offset(0xFFFF_FFFF, 4, 4, 0xA), 0xFFFF_FFAF);
    assert_eq!(set_bits_with_offset(0x0000_0F00, 10, 2, 0b01), 0x0000_0700);
    assert_eq!(set_bits_with_offset(0x1234_5678, 28, 1, 0), 0x0234_5678);
    assert_eq!(set_bits_with_offset(0, 31, 1, 1), 0x8000_0000);
    assert_eq!(set_bits_with_offset(0xDEAD_BEEF, 8, 0, 0), 0xDEAD_BEEF);
}

#[test]
fn set_bits_does_not_mask_the_value() {
    assert_eq!(set_bits_with_offset(0, 4, 2, 0xF), 0xF0);
    assert_eq!(set_bits_with_offset(0, 30, 2, 0xF), 0xC000_0000);
}

#[test]
fn memset_fills_the_front() {
    let mut buf = vec![1u8, 2, 3, 4, 5];
    memset(&mut buf, 0xAB, 3);
    assert_eq!(buf, vec![0xAB, 0xAB, 0xAB, 4, 5]);
    memset(&mut buf, 0, 0);
    assert_eq!(buf, vec![0xAB, 0xAB, 0xAB, 4, 5]);
    memset(&mut buf, 0x1FF, 5);
    assert_eq!(buf, vec![0xFF; 5]);
    memset(&mut buf, -2, 1);
    assert_eq!(buf, vec![0xFE, 0xFF, 0xFF, 0xFF, 0xFF]);
}

#[test]
fn strlen_counts_bytes() {
    assert_eq!(strlen(""), 0);
    assert_eq!(strlen("task"), 4);
    assert_eq!(strlen("Task limit reached"), 18);
    assert_eq!(strlen("\u{e9}"), 2);
}
