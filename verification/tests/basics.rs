use faultline::agent::parse_effective_capabilities;
use faultline::duration::Duration;
use faultline::net::{IpAddr, IpNet};
use faultline::text::{
    comes_before, decimal, is_blank, lines, parse_hex, parse_number, split_once, strip_prefix,
    strip_suffix, trim, trim_end,
};
use faultline::words::{
    add_text, join, mentions_word, read_word, same_letters, sort_texts, split_word,
};

#[test]
fn networks_are_read_and_written() {
    let v4 = IpNet::parse("10.20.0.7/16").unwrap();
    assert_eq!((v4.is_ipv4(), v4.prefix_len), (true, 16));
    assert_eq!(v4.to_text(), "10.20.0.7/16");
    assert_eq!(v4.trunc().to_text(), "10.20.0.0/16");
    assert_eq!(&v4.netmask()[..4], &[255, 255, 0, 0]);
    assert!(v4.contains(&IpAddr::v4(10, 20, 255, 1)));
    assert!(!v4.contains(&IpAddr::v4(10, 21, 0, 1)));
    let v6 = IpNet::parse("2001:0DB8:0:0:0:0:0:1/64").unwrap();
    assert_eq!(v6.to_text(), "2001:db8::1/64");
    assert_eq!(v6.trunc().to_text(), "2001:db8::/64");
    assert!(!v6.contains(&IpAddr::v4(10, 20, 255, 1)));
    for wrong in ["10.0.0.0/33", "10.0.0/8", "::/129", "host", "10.0.0.1", ""] {
        assert!(IpNet::parse(wrong).is_none(), "{wrong}");
    }
    let host = IpNet::host(IpAddr::parse("::ffff").unwrap());
    assert_eq!(host.prefix_len, 128);
    assert_eq!(host.to_text(), "::ffff/128");
    assert!(IpAddr::parse("10.0.0.256").is_none());
    assert!(IpNet::new(IpAddr::v4(1, 2, 3, 4), 33).is_none());
    assert!(IpNet::parse("9.0.0.0/8").unwrap().comes_before(&v4));
    assert!(v4.comes_before(&v6));
}

#[test]
fn numbers_are_written_and_read_back() {
    assert_eq!(decimal(0), "0");
    assert_eq!(decimal(u64::MAX), "18446744073709551615");
    assert_eq!(parse_number("18446744073709551615", u64::MAX), Some(u64::MAX));
    assert_eq!(parse_number("18446744073709551616", u64::MAX), None);
    assert_eq!(parse_number("+7", 10), Some(7));
    assert_eq!(parse_number("-7", 10), None);
    assert_eq!(parse_number("", 10), None);
    assert_eq!(parse_hex("00000000a80425fb"), Some(0xa804_25fb));
    assert_eq!(parse_hex("xyz"), None);
}

#[test]
fn texts_are_taken_apart() {
    assert_eq!(trim(" \tcat \n"), "cat");
    assert_eq!(trim_end(" cat \n"), " cat");
    assert!(is_blank(" \u{a0}\n"));
    assert!(!is_blank(" x"));
    assert_eq!(strip_prefix("docker://api", "docker://"), Some("api"));
    assert_eq!(strip_prefix("lxc://api", "docker://"), None);
    assert_eq!(strip_suffix("5ms", "ms"), Some("5"));
    assert_eq!(split_once("api/eth0/x", '/'), Some(("api", "eth0/x")));
    assert_eq!(split_once("api", '/'), None);
    assert_eq!(lines("a\r\nb\n\nc"), vec!["a", "b", "", "c"]);
    assert!(comes_before("apple", "banana"));
    assert!(!comes_before("banana", "apple"));
    assert!(comes_before("a", "ab"));
}

#[test]
fn words_are_found_joined_and_kept_in_order() {
    assert_eq!(split_word("loss 5% 10s", " "), Some(("loss", "5% 10s")));
    assert!(mentions_word("No such container: web", "such"));
    assert!(!mentions_word("web", "such"));
    assert!(same_letters("Running", "RUNNING"));
    assert!(!same_letters("Running", "Stopped"));
    assert_eq!(read_word("  eth0  up"), Some("eth0"));
    assert_eq!(read_word("   "), None);
    let mut names = vec!["b".to_owned(), "d".to_owned()];
    add_text(&mut names, "c".to_owned());
    assert_eq!(names, ["b", "c", "d"]);
    assert_eq!(join(&names, ", "), "b, c, d");
    let mixed: Vec<String> = ["b", "a", "c", "a"].iter().map(|text| (*text).to_owned()).collect();
    assert_eq!(sort_texts(&mixed), ["a", "a", "b", "c"]);
}

#[test]
fn complaints_quote_what_was_wrong() {
    assert_eq!(
        parse_effective_capabilities("Name:\tx\nCapEff:\tno\"hex\\\n"),
        Err("invalid CapEff value \"no\\\"hex\\\\\"".to_owned())
    );
}

#[test]
fn lengths_of_time_are_capped() {
    assert_eq!(Duration::from_secs(2).as_millis_capped(), 2_000);
    assert_eq!(Duration::from_secs(u64::MAX).as_millis_capped(), u64::MAX);
    assert_eq!(Duration::from_micros(3).as_nanos_capped(), 3_000);
    assert!(Duration::from_nanos(0).is_zero());
}
