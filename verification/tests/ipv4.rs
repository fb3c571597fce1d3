use cfddns::ipv4::{parse_ipv4, parse_octet, push_decimal, Ipv4};

#[test]
fn new_keeps_the_octets() {
    let ip = Ipv4::new(203, 0, 113, 9);
    assert_eq!(ip, Ipv4 { a: 203, b: 0, c: 113, d: 9 });
    assert_eq!(ip.octets(), [203, 0, 113, 9]);
}

#[test]
fn addresses_compare_by_octets() {
    assert_eq!(Ipv4::new(1, 2, 3, 4), Ipv4::new(1, 2, 3, 4));
    assert_ne!(Ipv4::new(1, 2, 3, 4), Ipv4::new(5, 6, 7, 8));
    assert_ne!(Ipv4::new(1, 2, 3, 4), Ipv4::new(4, 3, 2, 1));
}

#[test]
fn text_is_dotted_quad() {
    assert_eq!(Ipv4::new(203, 0, 113, 9).to_text(), "203.0.113.9");
    assert_eq!(Ipv4::new(0, 0, 0, 0).to_text(), "0.0.0.0");
    assert_eq!(Ipv4::new(255, 255, 255, 255).to_text(), "255.255.255.255");
    assert_eq!(Ipv4::new(10, 100, 9, 99).to_text(), "10.100.9.99");
    assert_eq!(Ipv4::new(1, 20, 101, 110).to_text(), "1.20.101.110");
}

#[test]
fn push_decimal_appends_the_digits() {
    let mut s = String::from("x=");
    push_decimal(&mut s, 0);
    push_decimal(&mut s, 7);
    push_decimal(&mut s, 42);
    push_decimal(&mut s, 100);
    push_decimal(&mut s, 255);
    assert_eq!(s, "x=0742100255");
}

#[test]
fn push_decimal_agrees_with_std_for_every_octet() {
    for n in 0..=255u8 {
        let mut s = String::new();
        push_decimal(&mut s, n);
        assert_eq!(s, format!("{}", n));
    }
}

#[test]
fn parses_plain_addresses() {
    assert_eq!(parse_ipv4("203.0.113.9"), Some(Ipv4::new(203, 0, 113, 9)));
    assert_eq!(parse_ipv4("0.0.0.0"), Some(Ipv4::new(0, 0, 0, 0)));
    assert_eq!(parse_ipv4("255.255.255.255"), Some(Ipv4::new(255, 255, 255, 255)));
    assert_eq!(parse_ipv4("1.2.3.4"), Some(Ipv4::new(1, 2, 3, 4)));
    assert_eq!(parse_ipv4("5.6.7.8"), Some(Ipv4::new(5, 6, 7, 8)));
    assert_eq!(parse_ipv4("192.168.10.200"), Some(Ipv4::new(192, 168, 10, 200)));
}

#[test]
fn rejects_text_that_is_no_address() {
    assert_eq!(parse_ipv4("error"), None);
    assert_eq!(parse_ipv4(""), None);
    assert_eq!(parse_ipv4("a.b.c.d"), None);
    assert_eq!(parse_ipv4("<html>502 Bad Gateway</html>"), None);
    assert_eq!(parse_ipv4("::1"), None);
    assert_eq!(parse_ipv4("2001:db8::1"), None);
}

#[test]
fn rejects_wrong_number_of_octets() {
    assert_eq!(parse_ipv4("1"), None);
    assert_eq!(parse_ipv4("1.2"), None);
    assert_eq!(parse_ipv4("1.2.3"), None);
    assert_eq!(parse_ipv4("1.2.3.4.5"), None);
    assert_eq!(parse_ipv4("1.2.3."), None);
    assert_eq!(parse_ipv4(".1.2.3"), None);
    assert_eq!(parse_ipv4("1..2.3"), None);
    assert_eq!(parse_ipv4("1.2.3.4."), None);
    assert_eq!(parse_ipv4("..."), None);
}

#[test]
fn rejects_octets_out_of_range() {
    assert_eq!(parse_ipv4("256.0.0.0"), None);
    assert_eq!(parse_ipv4("0.0.0.256"), None);
    assert_eq!(parse_ipv4("1.2.3.999"), None);
    assert_eq!(parse_ipv4("1.2.3.1000"), None);
    assert_eq!(parse_ipv4("1.2.3.0004"), None);
    assert_eq!(parse_ipv4("1.2.3.4294967297"), None);
}

#[test]
fn rejects_leading_zeros() {
    assert_eq!(parse_ipv4("01.2.3.4"), None);
    assert_eq!(parse_ipv4("1.2.3.04"), None);
    assert_eq!(parse_ipv4("1.2.3.00"), None);
    assert_eq!(parse_ipv4("1.02.3.4"), None);
    assert_eq!(parse_ipv4("1.2.3.010"), None);
}

#[test]
fn rejects_anything_around_the_address() {
    assert_eq!(parse_ipv4(" 1.2.3.4"), None);
    assert_eq!(parse_ipv4("1.2.3.4 "), None);
    assert_eq!(parse_ipv4("1.2.3.4\n"), None);
    assert_eq!(parse_ipv4("1.2.3.4\r\n"), None);
    assert_eq!(parse_ipv4("+1.2.3.4"), None);
    assert_eq!(parse_ipv4("-1.2.3.4"), None);
    assert_eq!(parse_ipv4("1.2.3.4/24"), None);
    assert_eq!(parse_ipv4("1.2.3.0x4"), None);
    assert_eq!(parse_ipv4("1.2.3.٤"), None);
}

#[test]
fn octet_text_is_one_to_three_digits() {
    assert_eq!(parse_octet("0"), Some(0));
    assert_eq!(parse_octet("9"), Some(9));
    assert_eq!(parse_octet("10"), Some(10));
    assert_eq!(parse_octet("99"), Some(99));
    assert_eq!(parse_octet("100"), Some(100));
    assert_eq!(parse_octet("255"), Some(255));
    assert_eq!(parse_octet("256"), None);
    assert_eq!(parse_octet(""), None);
    assert_eq!(parse_octet("00"), None);
    assert_eq!(parse_octet("007"), None);
    assert_eq!(parse_octet("1a"), None);
    assert_eq!(parse_octet("1234"), None);
    assert_eq!(parse_octet("0000"), None);
}

#[test]
fn reading_the_text_gives_the_address_back() {
    let samples = [0u8, 1, 9, 10, 11, 99, 100, 101, 199, 200, 249, 250, 254, 255];
    for &a in samples.iter() {
        for &d in samples.iter() {
            let ip = Ipv4::new(a, 7, 77, d);
            assert_eq!(parse_ipv4(&ip.to_text()), Some(ip));
        }
    }
}

#[test]
fn every_octet_reads_back() {
    for n in 0..=255u8 {
        assert_eq!(parse_octet(&format!("{}", n)), Some(n));
    }
}
