use h2_loadgen::number::Double;

fn double(v: f64) -> Double {
    Double {
        bits: v.to_bits(),
        shown: format!("{}", v),
    }
}

fn doubles() -> Vec<f64> {
    let mut all = vec![
        0.0,
        -0.0,
        1.0,
        -1.0,
        0.5,
        1.5,
        -2.75,
        3.0,
        1e-320,
        f64::MIN_POSITIVE,
        f64::MAX,
        f64::MIN,
        f64::INFINITY,
        f64::NEG_INFINITY,
        f64::NAN,
        2147483647.0,
        2147483647.9,
        2147483648.0,
        -2147483648.0,
        -2147483648.9,
        -2147483649.0,
        4294967296.0,
        9007199254740992.0,
        9007199254740994.0,
        9223372036854775808.0,
        -9223372036854775808.0,
        18446744073709551616.0,
        1e300,
        -1e300,
        123456.789,
    ];
    for n in integers() {
        all.push(n as f64);
    }
    all
}

fn integers() -> Vec<i64> {
    let mut all = vec![0, 1, -1, 2, 3, 7, -7, 255, i64::MAX, i64::MIN, i64::MAX - 1, i64::MIN + 1];
    for shift in [31u32, 32, 52, 53, 54, 55, 60, 62] {
        let base = 1i64 << shift;
        for delta in -3i64..=3 {
            all.push(base + delta);
            all.push(-(base + delta));
        }
    }
    all.push((1i64 << 62) + (1i64 << 9));
    all.push((1i64 << 62) + (1i64 << 9) + 1);
    all.push((1i64 << 62) + 3 * (1i64 << 9));
    all.push(i64::MAX - 511);
    all.push(i64::MAX - 512);
    all
}

#[test]
fn equals_is_double_equality() {
    for a in doubles() {
        for b in doubles() {
            assert_eq!(double(a).equals(&double(b)), a == b, "{} == {}", a, b);
        }
    }
}

#[test]
fn equals_int_is_equality_after_conversion() {
    for v in doubles() {
        for n in integers() {
            assert_eq!(
                double(v).equals_int(n),
                (n as f64) == v,
                "{} as double == {}",
                n,
                v
            );
        }
    }
}

#[test]
fn truncate_is_the_saturating_cast() {
    for v in doubles() {
        assert_eq!(double(v).truncate_to_i32(), v as i32, "{} as i32", v);
    }
    let mut v = 0.001f64;
    while v < 1e12 {
        assert_eq!(double(v).truncate_to_i32(), v as i32, "{} as i32", v);
        assert_eq!(double(-v).truncate_to_i32(), (-v) as i32, "{} as i32", -v);
        v *= 1.37;
    }
}
