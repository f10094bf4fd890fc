use handmade::common::util::{giga_bytes, kilo_bytes, mega_bytes, safe_truncate_u64, tera_bytes};

#[test]
fn byte_units_scale_by_1024() {
    assert_eq!(kilo_bytes(1), 1024);
    assert_eq!(mega_bytes(1), 1024 * 1024);
    assert_eq!(giga_bytes(2), 2 * 1024 * 1024 * 1024);
    assert_eq!(tera_bytes(1), 1024usize * 1024 * 1024 * 1024);
    assert_eq!(mega_bytes(3), kilo_bytes(kilo_bytes(3)));
}

#[test]
fn safe_truncate_keeps_small_values() {
    assert_eq!(safe_truncate_u64(0), 0);
    assert_eq!(safe_truncate_u64(u32::MAX as u64), u32::MAX);
    assert_eq!(safe_truncate_u64(123456), 123456);
}
