use label_print::text::{int_to_decimal, int_to_zero_padded, split_char};

#[test]
fn split_like_str_split() {
    for s in ["", "-", "a-b", "2026-02-02", "--x-", "no dash", "é-ü-ß"] {
        let expected: Vec<&str> = s.split('-').collect();
        assert_eq!(split_char(s, '-'), expected);
    }
}

#[test]
fn decimal_like_display() {
    for n in [0, 1, 9, 10, 99, 100, -1, -10, 123456789, i32::MAX, i32::MIN] {
        assert_eq!(int_to_decimal(n), format!("{}", n));
        assert_eq!(int_to_zero_padded(n, 6), format!("{:06}", n));
        assert_eq!(int_to_zero_padded(n, 0), format!("{}", n));
    }
}
