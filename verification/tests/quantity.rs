use ekokube::quantity::{parse_cpu_millis, parse_mem_bytes};

#[test]
fn cpu_quantities() {
    assert_eq!(parse_cpu_millis("100m"), Some(100));
    assert_eq!(parse_cpu_millis("1"), Some(1000));
    assert_eq!(parse_cpu_millis("2.5"), Some(2500));
    assert_eq!(parse_cpu_millis("0.1"), Some(100));
    assert_eq!(parse_cpu_millis("bogus"), None);
}

#[test]
fn mem_quantities() {
    assert_eq!(parse_mem_bytes("128Mi"), Some(128 * 1024 * 1024));
    assert_eq!(parse_mem_bytes("1Gi"), Some(1024 * 1024 * 1024));
    assert_eq!(parse_mem_bytes("1500M"), Some(1_500_000_000));
    assert_eq!(parse_mem_bytes("64Ki"), Some(65536));
    assert_eq!(parse_mem_bytes("1000"), Some(1000));
    assert_eq!(parse_mem_bytes("1.5Gi"), Some(1_610_612_736));
    assert_eq!(parse_mem_bytes("bogus"), None);
}

#[test]
fn cpu_quantity_edge_cases() {
    // surrounding whitespace is ignored
    assert_eq!(parse_cpu_millis("  250m \n"), Some(250));
    // the millicore form is an integer
    assert_eq!(parse_cpu_millis("1.5m"), None);
    assert_eq!(parse_cpu_millis("m"), None);
    // halves round away from zero
    assert_eq!(parse_cpu_millis("0.0005"), Some(1));
    assert_eq!(parse_cpu_millis("0.0004"), Some(0));
    // exponents, signs, and the special literals of the float grammar
    assert_eq!(parse_cpu_millis("1e3"), Some(1_000_000));
    assert_eq!(parse_cpu_millis("5E-1"), Some(500));
    assert_eq!(parse_cpu_millis("+2"), Some(2000));
    assert_eq!(parse_cpu_millis("-2"), Some(0));
    assert_eq!(parse_cpu_millis(".5"), Some(500));
    assert_eq!(parse_cpu_millis("3."), Some(3000));
    assert_eq!(parse_cpu_millis("inf"), Some(u64::MAX));
    assert_eq!(parse_cpu_millis("-Infinity"), Some(0));
    assert_eq!(parse_cpu_millis("NaN"), Some(0));
    assert_eq!(parse_cpu_millis("1e400"), Some(u64::MAX));
    assert_eq!(parse_cpu_millis("1e-400"), Some(0));
    assert_eq!(parse_cpu_millis(""), None);
    assert_eq!(parse_cpu_millis("."), None);
    assert_eq!(parse_cpu_millis("1e"), None);
    assert_eq!(parse_cpu_millis("1.2.3"), None);
}

#[test]
fn mem_quantity_units() {
    assert_eq!(parse_mem_bytes("2Ti"), Some(2 * 1024u64.pow(4)));
    assert_eq!(parse_mem_bytes("1Pi"), Some(1024u64.pow(5)));
    assert_eq!(parse_mem_bytes("3k"), Some(3000));
    assert_eq!(parse_mem_bytes("2G"), Some(2_000_000_000));
    assert_eq!(parse_mem_bytes("4T"), Some(4_000_000_000_000));
    assert_eq!(parse_mem_bytes("5P"), Some(5_000_000_000_000_000));
    // milli-bytes round to whole bytes
    assert_eq!(parse_mem_bytes("1500m"), Some(2));
    assert_eq!(parse_mem_bytes("400m"), Some(0));
    // the first matching suffix decides, even when its number is bad
    assert_eq!(parse_mem_bytes("xMi"), None);
    assert_eq!(parse_mem_bytes("Mi"), None);
    // saturation
    assert_eq!(parse_mem_bytes("100000Pi"), Some(u64::MAX));
    assert_eq!(parse_mem_bytes("18446744073709551615"), Some(u64::MAX));
    assert_eq!(parse_mem_bytes("18446744073709551616"), Some(u64::MAX));
}

#[test]
fn integer_quantities_scale_by_their_unit() {
    assert_eq!(parse_cpu_millis("250m"), Some(250));
    assert_eq!(parse_cpu_millis(" 4 "), Some(4000));
    assert_eq!(parse_cpu_millis("4000m"), parse_cpu_millis("4"));
    assert_eq!(parse_cpu_millis("1.5m"), None);
    assert_eq!(parse_cpu_millis("-5m"), None);
    let units: [(&str, u64); 10] = [
        ("Ki", 1 << 10),
        ("Mi", 1 << 20),
        ("Gi", 1 << 30),
        ("Ti", 1 << 40),
        ("Pi", 1 << 50),
        ("k", 1_000),
        ("M", 1_000_000),
        ("G", 1_000_000_000),
        ("T", 1_000_000_000_000),
        ("P", 1_000_000_000_000_000),
    ];
    for (suffix, factor) in units {
        let q = format!("3{suffix}");
        assert_eq!(parse_mem_bytes(&q), Some(3 * factor));
        assert_eq!(parse_mem_bytes(&q), parse_mem_bytes(&(3 * factor).to_string()));
        assert_eq!(parse_mem_bytes(&format!("\t{q} \n")), Some(3 * factor));
    }
    assert_eq!(parse_mem_bytes("xGi"), None);
}
