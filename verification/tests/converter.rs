use marketplace_kit::converter::{i32_to_u32, u32_to_i32, PgU32, SHIFT};

#[test]
fn test_conversion_functions() {
    assert_eq!(u32_to_i32(0), i32::MIN);
    assert_eq!(i32_to_u32(i32::MIN), 0);
    assert_eq!(u32_to_i32(u32::MAX), i32::MAX);
    assert_eq!(i32_to_u32(i32::MAX), u32::MAX);
    assert_eq!(u32_to_i32(SHIFT), 0);
    assert_eq!(i32_to_u32(0), SHIFT);
}

#[test]
fn test_roundtrip_all_boundaries() {
    let test_values = [
        0u32,
        1,
        42,
        1_000_000,
        2_147_483_647,
        2_147_483_648,
        3_000_000_000,
        4_000_000_000,
        u32::MAX,
    ];
    for &original in &test_values {
        let stored = u32_to_i32(original);
        let recovered = i32_to_u32(stored);
        assert_eq!(original, recovered, "failed for: {}", original);
    }
}

#[test]
fn test_pg_u32_type() {
    let original = PgU32::new(u32::MAX);
    let stored: i32 = original.to_pg_i32();
    let recovered = PgU32::from_pg_i32(stored);
    assert_eq!(original, recovered);

    let from_u32: PgU32 = 42u32.into();
    assert_eq!(from_u32.get(), 42);

    let from_i32: PgU32 = (-1i32).into();
    assert_eq!(from_i32.get(), 2_147_483_647);

    assert_eq!(PgU32::new(100).to_text(), "100");
}

#[test]
fn test_no_collisions() {
    let mut seen = std::collections::HashSet::new();
    for val in (0..=u32::MAX).step_by(43_691) {
        let stored = u32_to_i32(val);
        assert!(seen.insert(stored), "collision at value: {}", val);
    }
}

#[test]
fn test_no_panic() {
    for val in (0..=u32::MAX).step_by(1_000_000) {
        let _ = u32_to_i32(val);
    }
    for val in (i32::MIN..=i32::MAX).step_by(1_000_000) {
        let _ = i32_to_u32(val);
    }
}

#[test]
fn test_ordering_preserved() {
    let a = PgU32::new(0);
    let b = PgU32::new(1_000_000);
    let c = PgU32::new(u32::MAX);
    assert!(a < b);
    assert!(b < c);
}

#[test]
fn pg_u32_stored_values_are_shifted() {
    assert_eq!(PgU32::new(0).to_pg_i32(), i32::MIN);
    assert_eq!(PgU32::new(SHIFT).to_pg_i32(), 0);
    assert_eq!(PgU32::from_pg_i32(0).get(), SHIFT);
    let back: i32 = PgU32::new(SHIFT + 5).into();
    assert_eq!(back, 5);
    let plain: u32 = PgU32::new(7).into();
    assert_eq!(plain, 7);
}

#[test]
fn pg_u32_text_is_decimal() {
    assert_eq!(PgU32::new(0).to_text(), "0");
    assert_eq!(PgU32::new(u32::MAX).to_text(), "4294967295");
    assert_eq!(PgU32::new(1_000_000).to_text(), "1000000");
}

#[test]
fn order_of_stored_values_follows_order_of_originals() {
    let pairs = [(0u32, 1u32), (5, 3_000_000_000), (SHIFT - 1, SHIFT), (100, 100)];
    for (a, b) in pairs {
        assert_eq!(a < b, u32_to_i32(a) < u32_to_i32(b));
        assert_eq!(a == b, u32_to_i32(a) == u32_to_i32(b));
    }
}
