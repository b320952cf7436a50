use file_share::address::{
    access_base_uri, access_url, bind_host, choose_ip, ip_list_line, listen_port, select_ip,
    IpChoice, ANY_ADDRESS, DEFAULT_IP_IDX,
};
use file_share::decimal::{decimal, padded2, parse_usize};

#[test]
fn empty_answer_takes_default() {
    assert_eq!(choose_ip("", 3), IpChoice::Chosen(DEFAULT_IP_IDX));
    assert_eq!(DEFAULT_IP_IDX, 1);
}

#[test]
fn number_below_count_is_chosen() {
    assert_eq!(choose_ip("0", 3), IpChoice::Chosen(0));
    assert_eq!(choose_ip("2", 3), IpChoice::Chosen(2));
    assert_eq!(choose_ip("02", 3), IpChoice::Chosen(2));
    assert_eq!(choose_ip("+1", 3), IpChoice::Chosen(1));
}

#[test]
fn other_answers_ask_again() {
    assert_eq!(choose_ip("3", 3), IpChoice::Retry(String::from("only allows 0~2, but got input 3")));
    assert_eq!(choose_ip("eth0", 1), IpChoice::Retry(String::from("only allows 0~0, but got input eth0")));
    assert_eq!(choose_ip("-1", 12), IpChoice::Retry(String::from("only allows 0~11, but got input -1")));
}

#[test]
fn typed_line_is_trimmed() {
    assert_eq!(select_ip("  02 \n", 5), Some(IpChoice::Chosen(2)));
    assert_eq!(select_ip("\n", 3), Some(IpChoice::Chosen(1)));
    assert_eq!(select_ip(" 7\t\n", 3), Some(IpChoice::Retry(String::from("only allows 0~2, but got input 7"))));
}

#[test]
fn empty_line_without_default_address() {
    assert_eq!(select_ip("\r\n", 1), None);
    assert_eq!(select_ip("0\n", 1), Some(IpChoice::Chosen(0)));
}

#[test]
fn listed_position_is_chosen_back() {
    for n in 0..150usize {
        let line = ip_list_line(n, "192.168.1.2");
        let label = &line[1..line.find(']').unwrap()];
        assert_eq!(choose_ip(label, 150), IpChoice::Chosen(n));
    }
}

#[test]
fn list_lines() {
    assert_eq!(ip_list_line(0, "127.0.0.1"), "[00] 127.0.0.1");
    assert_eq!(ip_list_line(7, "fe80::1"), "[07] fe80::1");
    assert_eq!(ip_list_line(42, "10.0.0.3"), "[42] 10.0.0.3");
    assert_eq!(ip_list_line(123, "x"), "[123] x");
}

#[test]
fn access_uri_brackets_ipv6() {
    assert_eq!(access_base_uri("192.168.1.5", 8080, false), "192.168.1.5:8080");
    assert_eq!(access_base_uri("fe80::1", 80, true), "[fe80::1]:80");
    assert_eq!(access_url("192.168.1.5:8080"), "http://192.168.1.5:8080");
}

#[test]
fn decimal_text() {
    assert_eq!(decimal(0), "0");
    assert_eq!(decimal(9), "9");
    assert_eq!(decimal(10), "10");
    assert_eq!(decimal(65535), "65535");
    assert_eq!(decimal(usize::MAX), usize::MAX.to_string());
    assert_eq!(padded2(0), "00");
    assert_eq!(padded2(9), "09");
    assert_eq!(padded2(10), "10");
    assert_eq!(padded2(100), "100");
}

#[test]
fn parse_like_std() {
    let cases = ["0", "7", "+7", "007", "", "+", "-", "-1", "1a", " 1", "18446744073709551615",
        "18446744073709551616", "99999999999999999999999", "+0", "١"];
    for c in cases.iter() {
        assert_eq!(parse_usize(c), c.parse::<usize>().ok(), "input {:?}", c);
    }
}

#[test]
fn decimal_round_trip() {
    for n in [0usize, 1, 9, 10, 99, 100, 1337, 65535, usize::MAX - 1, usize::MAX] {
        assert_eq!(parse_usize(&decimal(n)), Some(n));
        assert_eq!(parse_usize(&padded2(n)), Some(n));
    }
}

#[test]
fn bind_host_follows_flag() {
    assert_eq!(bind_host("192.168.1.5", true), "192.168.1.5");
    assert_eq!(bind_host("192.168.1.5", false), "0.0.0.0");
    assert_eq!(ANY_ADDRESS, "0.0.0.0");
}

#[test]
fn low_ports_are_left_to_the_system() {
    assert_eq!(listen_port(8080), 8080);
    assert_eq!(listen_port(1024), 1024);
    assert_eq!(listen_port(1023), 0);
    assert_eq!(listen_port(80), 0);
    assert_eq!(listen_port(0), 0);
}

#[test]
fn trims_unicode_white_space() {
    assert_eq!(select_ip("\u{3000}2\u{a0}\u{2029}", 5), Some(IpChoice::Chosen(2)));
    assert_eq!(select_ip("\u{200b}2", 5), Some(IpChoice::Retry(String::from("only allows 0~4, but got input \u{200b}2"))));
}
