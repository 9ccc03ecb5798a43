#[test]
fn test_precision_factor_extremes() {
    let extreme_precision_factors: [i128; 5] = [
        1,
        1000,
        1_000_000,
        1_000_000_000,
        i128::MAX / 1000,
    ];

    let test_usage = 1_000_000_000i128;

    for &precision in extreme_precision_factors.iter() {
        let precise_consumption = test_usage.saturating_mul(precision);
        assert!(precise_consumption >= 0);

        if precision != 0 {
            let display = test_usage / precision;
            assert!(display >= 0);
        }
    }
}

#[test]
fn test_arithmetic_edge_cases() {
    let edge_cases: [i128; 7] = [
        i128::MAX,
        i128::MIN,
        i128::MAX - 1,
        i128::MIN + 1,
        0,
        -1,
        1,
    ];

    for &value in edge_cases.iter() {
        let _a = value.saturating_add(1);
        let _b = value.saturating_mul(1000);
        let _c = value.saturating_sub(1);

        if value != 0 {
            let _d = 1000i128 / value;
        }
    }
}
