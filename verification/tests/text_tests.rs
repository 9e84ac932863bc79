use cargo_prod::text::{chars_of, i64_to_decimal, string_from_chars, text_lines, u64_to_decimal};

#[test]
fn decimal_of_zero_and_large_values() {
    assert_eq!(u64_to_decimal(0), "0");
    assert_eq!(u64_to_decimal(7), "7");
    assert_eq!(u64_to_decimal(10), "10");
    assert_eq!(u64_to_decimal(1234567890), "1234567890");
    assert_eq!(u64_to_decimal(u64::MAX), u64::MAX.to_string());
}

#[test]
fn signed_decimal_matches_display() {
    assert_eq!(i64_to_decimal(1), "1");
    assert_eq!(i64_to_decimal(-1), "-1");
    assert_eq!(i64_to_decimal(-305), "-305");
    assert_eq!(i64_to_decimal(i64::MIN), i64::MIN.to_string());
    assert_eq!(i64_to_decimal(i64::MAX), i64::MAX.to_string());
}

#[test]
fn decimal_reads_back() {
    for n in [0u64, 1, 9, 10, 99, 100, 4096, 987654321] {
        let s = u64_to_decimal(n);
        assert_eq!(s.parse::<u64>().unwrap(), n);
    }
}

#[test]
fn chars_and_substrings() {
    let cs = chars_of("héllo");
    assert_eq!(cs, vec!['h', 'é', 'l', 'l', 'o']);
    assert_eq!(string_from_chars(&cs, 1, 4), "éll");
    assert_eq!(string_from_chars(&cs, 2, 2), "");
}

#[test]
fn lines_match_std() {
    let samples = [
        "",
        "\n",
        "a",
        "a\n",
        "a\nb",
        "a\r\nb\r\n",
        "a\rb\n\nc",
        "x\r",
        "\n\n\nlast",
        "/lib/libc.so.6\n/lib64/ld-linux-x86-64.so.2\n",
    ];
    for s in samples {
        let expected: Vec<String> = s.lines().map(|l| l.to_string()).collect();
        assert_eq!(text_lines(s), expected, "lines of {:?}", s);
    }
}
