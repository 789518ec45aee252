use benchmark_rs::disk_usage::{decimal_text, divide_round_half_even, nearest_double, to_human};

fn with_floats(size: u64) -> String {
    if size / 0x10000000000_u64 > 0 {
        format!("{:.3}T", size as f64 / 0x10000000000_u64 as f64)
    } else if size / 0x40000000_u64 > 0 {
        format!("{:.3}G", size as f64 / 0x40000000_u64 as f64)
    } else if size / 0x100000_u64 > 0 {
        format!("{:.3}M", size as f64 / 0x100000_u64 as f64)
    } else if size / 0x400_u64 > 0 {
        format!("{:.3}K", size as f64 / 0x400_u64 as f64)
    } else {
        format!("{}", size)
    }
}

/// The size of what lies at `path`: a file of 512 bytes, one of a kibibyte,
/// and the directory that holds the two.
fn size_at(path: &str) -> u64 {
    match path {
        "./tests/fixtures/1.5K/512" => 512,
        "./tests/fixtures/1.5K/1K" => 1024,
        "./tests/fixtures/1.5K/" => 512 + 1024,
        _ => panic!("nothing at {path}"),
    }
}

#[test]
fn test_disk_usage() {
    assert_eq!(
        to_human(size_at("./tests/fixtures/1.5K/512")),
        "512".to_string()
    );
    assert_eq!(
        to_human(size_at("./tests/fixtures/1.5K/1K")),
        "1.000K".to_string()
    );
    assert_eq!(
        to_human(size_at("./tests/fixtures/1.5K/")),
        "1.500K".to_string()
    );
}

#[test]
fn sizes_in_every_unit() {
    assert_eq!(to_human(0), "0");
    assert_eq!(to_human(9), "9");
    assert_eq!(to_human(10), "10");
    assert_eq!(to_human(1023), "1023");
    assert_eq!(to_human(1025), "1.001K");
    assert_eq!(to_human(1_048_575), "1023.999K");
    assert_eq!(to_human(1_048_576), "1.000M");
    assert_eq!(to_human(1_073_741_823), "1024.000M");
    assert_eq!(to_human(1_073_741_824), "1.000G");
    assert_eq!(to_human(1_610_612_736), "1.500G");
    assert_eq!(to_human(1_099_511_627_776), "1.000T");
    assert_eq!(to_human(u64::MAX), "16777216.000T");
}

#[test]
fn ties_go_to_the_even_thousandth() {
    assert_eq!(to_human(1024 + 64), "1.062K");
    assert_eq!(to_human(1024 + 192), "1.188K");
    assert_eq!(to_human(1024 + 320), "1.312K");
    assert_eq!(to_human(1024 + 65), "1.063K");
    assert_eq!(to_human(1024 + 63), "1.062K");
}

#[test]
fn text_is_that_of_the_floating_point_quotient() {
    let mut state: u64 = 0x2545_f491_4f6c_dd1d;
    for round in 0..20_000u32 {
        state ^= state << 13;
        state ^= state >> 7;
        state ^= state << 17;
        let size = state >> (round % 64);
        assert_eq!(to_human(size), with_floats(size), "size {size}");
    }
    for size in 0..5_000u64 {
        assert_eq!(to_human(size), with_floats(size), "size {size}");
    }
    for exponent in 0..64u32 {
        let power = 1u64 << exponent;
        for offset in 0..130u64 {
            let above = power.wrapping_add(offset);
            let below = power.wrapping_sub(offset);
            assert_eq!(to_human(above), with_floats(above), "size {above}");
            assert_eq!(to_human(below), with_floats(below), "size {below}");
        }
    }
    for offset in 0..5_000u64 {
        let size = u64::MAX - offset;
        assert_eq!(to_human(size), with_floats(size), "size {size}");
    }
}

#[test]
fn nearest_double_rounds_to_53_bits() {
    assert_eq!(nearest_double(0), 0);
    assert_eq!(nearest_double(12_345), 12_345);
    assert_eq!(nearest_double((1 << 53) - 1), (1 << 53) - 1);
    assert_eq!(nearest_double(1 << 53), 1 << 53);
    assert_eq!(nearest_double((1 << 53) + 1), 1 << 53);
    assert_eq!(nearest_double((1 << 53) + 2), (1 << 53) + 2);
    assert_eq!(nearest_double((1 << 53) + 3), (1 << 53) + 4);
    assert_eq!(nearest_double(u64::MAX), 1 << 64);
    assert_eq!(nearest_double(u64::MAX - 1023), 1 << 64);
    assert_eq!(nearest_double(u64::MAX - 1024), (1 << 64) - 2048);
}

#[test]
fn division_rounds_ties_to_even() {
    assert_eq!(divide_round_half_even(0, 7), 0);
    assert_eq!(divide_round_half_even(7, 2), 4);
    assert_eq!(divide_round_half_even(5, 2), 2);
    assert_eq!(divide_round_half_even(1, 2), 0);
    assert_eq!(divide_round_half_even(3, 2), 2);
    assert_eq!(divide_round_half_even(10, 4), 2);
    assert_eq!(divide_round_half_even(14, 4), 4);
    assert_eq!(divide_round_half_even(11, 4), 3);
    assert_eq!(divide_round_half_even(9, 4), 2);
    assert_eq!(divide_round_half_even(u128::MAX, 1), u128::MAX);
    assert_eq!(divide_round_half_even(u128::MAX, u128::MAX), 1);
}

#[test]
fn decimal_digits() {
    assert_eq!(decimal_text(0), "0");
    assert_eq!(decimal_text(7), "7");
    assert_eq!(decimal_text(10), "10");
    assert_eq!(decimal_text(1_234_567_890), "1234567890");
    assert_eq!(
        decimal_text(u128::MAX),
        "340282366920938463463374607431768211455"
    );
}
