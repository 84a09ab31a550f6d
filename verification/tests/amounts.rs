use boi_sniper::slippage::{slippage_percent, with_slippage};
use boi_sniper::text::decimal;
use boi_sniper::wei::Wei;

fn in_doubles(price: u128) -> u128 {
    (price as f64 * 1.15) as u128
}

#[test]
fn cap_matches_doubles_on_small_quotes() {
    for price in 0u128..20_000 {
        assert_eq!(with_slippage(price), in_doubles(price), "{price}");
    }
}

#[test]
fn cap_matches_doubles_around_powers_of_two() {
    for shift in 0..128u32 {
        let power = 1u128 << shift;
        for offset in 0..200u128 {
            let above = power.saturating_add(offset);
            let below = power.saturating_sub(offset);
            assert_eq!(with_slippage(above), in_doubles(above), "{above}");
            assert_eq!(with_slippage(below), in_doubles(below), "{below}");
        }
    }
}

#[test]
fn cap_matches_doubles_on_scattered_quotes() {
    let mut seed = 0x1234_5678_9abc_def0_0fed_cba9_8765_4321u128;
    for i in 0..100_000u32 {
        seed = seed.wrapping_mul(0x2360_ed05_1fc6_5da4_4385_df64_9fcc_f645).wrapping_add(0x5851_f42d);
        let price = seed >> (i % 128);
        assert_eq!(with_slippage(price), in_doubles(price), "{price}");
    }
}

#[test]
fn cap_matches_doubles_on_ties() {
    let exact = 1u128 << 53;
    for step in 0..64u128 {
        for shift in 1..70u32 {
            let tie = ((exact + 2 * step) << shift) + (1u128 << (shift - 1)) * 3;
            assert_eq!(with_slippage(tie), in_doubles(tie), "{tie}");
            let half = ((exact + step) << shift) | (1u128 << (shift - 1));
            assert_eq!(with_slippage(half), in_doubles(half), "{half}");
        }
    }
}

#[test]
fn cap_has_known_values() {
    assert_eq!(with_slippage(0), 0);
    assert_eq!(with_slippage(1), 1);
    assert_eq!(with_slippage(7), 8);
    assert_eq!(with_slippage(20), 23);
    assert_eq!(with_slippage(100), 114);
    assert_eq!(with_slippage(1_000_000_000_000_000_000), 1_149_999_999_999_999_872);
    assert_eq!(with_slippage(u128::MAX), u128::MAX);
}

#[test]
fn cap_covers_and_bounds_the_quote() {
    let quotes = [1u128, 2, 3, 19, 1 << 53, (1 << 53) + 1, 123_456_789_012_345_678_901];
    for pair in quotes.windows(2) {
        assert!(with_slippage(pair[0]) >= pair[0]);
        assert!(with_slippage(pair[0]) <= pair[0] + pair[0] * 15 / 100 + pair[0] / (1 << 50) + 1);
        assert!(with_slippage(pair[0]) <= with_slippage(pair[1]));
    }
}

#[test]
fn cap_is_close_on_both_sides() {
    let mut quotes = vec![0u128, 1, 19, 99, 12_345, 987_654_321_987_654_321];
    for shift in 50u32..117 {
        quotes.extend([(1u128 << shift) - 1, 1u128 << shift, (1u128 << shift) * 7 / 5 + 3]);
    }
    for quote in quotes {
        let exact = quote + quote * 3 / 20;
        let slack = 2 + (quote >> 51);
        let cap = with_slippage(quote);
        assert!(cap <= exact + slack, "{quote}");
        assert!(cap + slack >= exact, "{quote}");
    }
}

#[test]
fn percent_is_cut() {
    assert_eq!(slippage_percent(), ((1.15f64 - 1.0) * 100.0) as u128);
    assert_eq!(slippage_percent(), 14);
}

#[test]
fn decimals() {
    assert_eq!(decimal(0), "0");
    assert_eq!(decimal(9), "9");
    assert_eq!(decimal(10), "10");
    assert_eq!(decimal(1_234_567_890), "1234567890");
    assert_eq!(decimal(u128::MAX), u128::MAX.to_string());
}

#[test]
fn coins() {
    assert_eq!(Wei::from_u128(0).in_coins(), "0.000000000000000000");
    assert_eq!(Wei::from_u128(1).in_coins(), "0.000000000000000001");
    assert_eq!(Wei::from_u128(1_395_633_240_123_456_789).in_coins(), "1.395633240123456789");
    assert_eq!(Wei::from_u128(25_000_000_000_000_000_000).in_coins(), "25.000000000000000000");
    assert_eq!(
        Wei::from_u128(u128::MAX).in_coins(),
        "340282366920938463463.374607431768211455"
    );
    assert_eq!(
        Wei { limbs: [0, 0, 1, 0] }.in_coins(),
        "340282366920938463463.374607431768211456"
    );
    assert_eq!(
        Wei { limbs: [u64::MAX; 4] }.in_coins(),
        "115792089237316195423570985008687907853269984665640564039457.584007913129639935"
    );
}

#[test]
fn limbs() {
    let n = 0x0123_4567_89ab_cdef_1122_3344_5566_7788u128;
    let wei = Wei::from_u128(n);
    assert_eq!(wei.limbs, [0x1122_3344_5566_7788, 0x0123_4567_89ab_cdef, 0, 0]);
    assert_eq!(wei.to_u128(), Some(n));
    assert_eq!(Wei { limbs: [0, 0, 1, 0] }.to_u128(), None);
    assert_eq!(Wei { limbs: [0, 0, 0, 1] }.to_u128(), None);
    assert!(wei.covers(n));
    assert!(wei.covers(n - 1));
    assert!(!wei.covers(n + 1));
    assert!(Wei { limbs: [0, 0, 0, 1] }.covers(u128::MAX));
}
