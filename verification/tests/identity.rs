use nbody::gravity::{generate_semi_random_u32, resolve_color, IdAllocator};

#[test]
fn ids_start_at_zero_and_increase() {
    let mut alloc = IdAllocator::new();
    assert_eq!(alloc.get_current_id(), 0);
    let a = alloc.id();
    let b = alloc.id();
    let c = alloc.id();
    assert_eq!(a, 0);
    assert_eq!(b, 1);
    assert_eq!(c, 2);
    assert!(a < b && b < c);
    assert_eq!(alloc.get_current_id(), 3);
}

#[test]
fn id_offset_recovers_checkpoint() {
    let mut alloc = IdAllocator::new();
    for _ in 0..5 {
        alloc.id();
    }
    assert_eq!(alloc.get_id_offset(5), 0);
    assert_eq!(alloc.get_id_offset(2), 3);
    assert_eq!(alloc.get_id_offset(0), 5);
}

#[test]
fn color_is_deterministic() {
    assert_eq!(generate_semi_random_u32(42), generate_semi_random_u32(42));
    assert_eq!(generate_semi_random_u32(7), generate_semi_random_u32(7));
}

#[test]
fn color_exact_values() {
    // three iterations of x <- x * 1664525 + 1013904223 mod 2^32
    assert_eq!(generate_semi_random_u32(0), 0xd1ccf6e9);
    assert_eq!(generate_semi_random_u32(1), 0x8116017e);
    assert_eq!(generate_semi_random_u32(2), 0x305f0c13);
}

#[test]
fn color_truncates_wide_ids() {
    // ids equal modulo 2^32 derive the same color
    assert_eq!(
        generate_semi_random_u32(0x1_0000_0002),
        generate_semi_random_u32(2)
    );
}

#[test]
fn sentinel_color_is_derived_other_colors_kept() {
    assert_eq!(resolve_color(0, 0xFAFAFAFA), 0xd1ccf6e9);
    assert_eq!(resolve_color(5, 0xFAFAFAFA), 0x3e3a2bd2);
    assert_eq!(resolve_color(5, 0x00123456), 0x00123456);
    assert_eq!(resolve_color(0, 0), 0);
}
