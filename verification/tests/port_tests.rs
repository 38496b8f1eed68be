use dirlist::port::candidate_address;

#[test]
fn candidate_ports_stay_in_range() {
    for _ in 0..100 {
        let (port, _addr) = candidate_address();
        assert!((1024..=65535).contains(&port));
    }
}

#[test]
fn candidate_address_names_the_port() {
    for _ in 0..20 {
        let (port, addr) = candidate_address();
        assert_eq!(addr, format!("localhost:{}", port));
    }
}

#[test]
fn decimal_rendering_is_exact() {
    let mut s = String::new();
    dirlist::numfmt::push_decimal(&mut s, 0);
    assert_eq!(s, "0");
    let mut s = String::new();
    dirlist::numfmt::push_decimal(&mut s, 10);
    assert_eq!(s, "10");
    let mut s = String::new();
    dirlist::numfmt::push_decimal(&mut s, u64::MAX);
    assert_eq!(s, "18446744073709551615");
}
