use ray_tracing::color::{push_decimal, push_ppm_header, push_rgb_line};

fn text(bytes: Vec<u8>) -> String {
    String::from_utf8(bytes).unwrap()
}

#[test]
fn decimal_of_small_and_large_numbers() {
    for (n, expected) in [(0u64, "0"), (7, "7"), (10, "10"), (255, "255"), (1000, "1000")] {
        let mut out = Vec::new();
        push_decimal(&mut out, n);
        assert_eq!(text(out), expected);
    }
    let mut out = Vec::new();
    push_decimal(&mut out, u64::MAX);
    assert_eq!(text(out), u64::MAX.to_string());
}

#[test]
fn decimal_appends_after_existing_bytes() {
    let mut out = b"x=".to_vec();
    push_decimal(&mut out, 42);
    assert_eq!(text(out), "x=42");
}

#[test]
fn pixel_line_layout() {
    let mut out = Vec::new();
    push_rgb_line(&mut out, 255, 0, 17);
    assert_eq!(text(out), "255 0 17\n");
}

#[test]
fn header_layout() {
    let mut out = Vec::new();
    push_ppm_header(&mut out, 400, 225);
    assert_eq!(text(out), "P3\n400 225\n255\n");
}

#[test]
fn whole_tiny_image() {
    let mut out = Vec::new();
    push_ppm_header(&mut out, 2, 1);
    push_rgb_line(&mut out, 1, 2, 3);
    push_rgb_line(&mut out, 40, 50, 60);
    assert_eq!(text(out), "P3\n2 1\n255\n1 2 3\n40 50 60\n");
}

#[test]
fn decimal_reads_back() {
    for n in [0u64, 1, 9, 10, 99, 100, 12345, 4294967296, u64::MAX] {
        let mut out = Vec::new();
        push_decimal(&mut out, n);
        assert!(out.iter().all(|b| b.is_ascii_digit()));
        assert!(n == 0 || out[0] != b'0');
        assert_eq!(text(out).parse::<u64>().unwrap(), n);
    }
}
