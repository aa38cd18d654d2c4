use route_filters::text::{
    bytes_of, copy_bytes, eq_ignore_case, find, parse_decimal, same_bytes, split_path, to_lower,
};

fn b(s: &str) -> Vec<u8> {
    s.as_bytes().to_vec()
}

#[test]
fn to_lower_changes_only_upper_case_letters() {
    for byte in 0u8..=255 {
        assert_eq!(to_lower(byte), byte.to_ascii_lowercase());
    }
}

#[test]
fn bytes_of_gives_the_utf8_bytes() {
    assert_eq!(bytes_of("hi"), vec![0x68, 0x69]);
    assert_eq!(bytes_of(""), Vec::<u8>::new());
    assert_eq!(bytes_of("é"), vec![0xc3, 0xa9]);
}

#[test]
fn copy_bytes_is_not_the_empty_vector() {
    assert_eq!(copy_bytes(&vec![1, 2, 3]), vec![1, 2, 3]);
}

#[test]
fn same_bytes_compares_length_and_content() {
    assert!(same_bytes(&b("abc"), &b("abc")));
    assert!(!same_bytes(&b("abc"), &b("abd")));
    assert!(!same_bytes(&b("abc"), &b("ab")));
    assert!(!same_bytes(&b("abc"), &b("ABC")));
    assert!(same_bytes(&b(""), &b("")));
}

#[test]
fn eq_ignore_case_agrees_with_std() {
    let samples = ["", "a", "A", "Accept", "ACCEPT", "accept", "accepT ", "a-b", "A_b", "@", "`"];
    for x in samples.iter() {
        for y in samples.iter() {
            assert_eq!(eq_ignore_case(&b(x), &b(y)), x.eq_ignore_ascii_case(y), "{:?} {:?}", x, y);
        }
    }
}

#[test]
fn find_agrees_with_std() {
    let hays = ["", "d", "denom", "missing field `denom` at line 1", "deno", "xdenomx", "dendenom"];
    let needles = ["", "d", "denom", "m", "om`", "x", "denomm"];
    for hay in hays.iter() {
        for needle in needles.iter() {
            assert_eq!(find(&b(hay), &b(needle)), hay.contains(needle), "{:?} {:?}", hay, needle);
        }
    }
}

#[test]
fn parse_decimal_reads_exact_values() {
    assert_eq!(parse_decimal(&b("0"), 0xffff), Some(0));
    assert_eq!(parse_decimal(&b("42"), 0xffff), Some(42));
    assert_eq!(parse_decimal(&b("+42"), 0xffff), Some(42));
    assert_eq!(parse_decimal(&b("007"), 0xffff), Some(7));
    assert_eq!(parse_decimal(&b("65535"), 0xffff), Some(65535));
    assert_eq!(parse_decimal(&b("65536"), 0xffff), None);
    assert_eq!(parse_decimal(&b("18446744073709551615"), u64::MAX), Some(u64::MAX));
    assert_eq!(parse_decimal(&b("18446744073709551616"), u64::MAX), None);
    assert_eq!(parse_decimal(&b(""), 0xffff), None);
    assert_eq!(parse_decimal(&b("+"), 0xffff), None);
    assert_eq!(parse_decimal(&b("-1"), 0xffff), None);
    assert_eq!(parse_decimal(&b("++1"), 0xffff), None);
    assert_eq!(parse_decimal(&b("1 "), 0xffff), None);
    assert_eq!(parse_decimal(&b("1x"), 0xffff), None);
    assert_eq!(parse_decimal(&b("x"), 0xffff), None);
}

#[test]
fn parse_decimal_agrees_with_std_parse() {
    let samples = [
        "", "+", "-", "0", "1", "+0", "-0", "00", "09", "65535", "65536", "4294967295",
        "4294967296", "18446744073709551615", "18446744073709551616", "99999999999999999999999",
        "000000000000000000000000000001", "1_0", "1.0", " 1", "1 ", "0x10", "١", "12a", "+-1",
    ];
    for s in samples.iter() {
        assert_eq!(parse_decimal(&b(s), u16::MAX as u64), s.parse::<u16>().ok().map(u64::from));
        assert_eq!(parse_decimal(&b(s), u32::MAX as u64), s.parse::<u32>().ok().map(u64::from));
        assert_eq!(parse_decimal(&b(s), u64::MAX), s.parse::<u64>().ok(), "{:?}", s);
    }
}

#[test]
fn split_path_gives_the_segments() {
    let none: Vec<Vec<u8>> = Vec::new();
    assert_eq!(split_path(&b("/")), none);
    assert_eq!(split_path(&b("")), none);
    assert_eq!(split_path(&b("/hi")), vec![b("hi")]);
    assert_eq!(split_path(&b("hi")), vec![b("hi")]);
    assert_eq!(split_path(&b("/hi/")), vec![b("hi")]);
    assert_eq!(split_path(&b("/hi/there")), vec![b("hi"), b("there")]);
    assert_eq!(split_path(&b("/sum/3/4")), vec![b("sum"), b("3"), b("4")]);
    assert_eq!(split_path(&b("/a//b")), vec![b("a"), b(""), b("b")]);
    assert_eq!(split_path(&b("//")), vec![b("")]);
    assert_eq!(split_path(&b("/a//")), vec![b("a"), b("")]);
}
