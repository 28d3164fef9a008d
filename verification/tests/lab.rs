use faultline::duration::Duration;
use faultline::lab::{
    has_flag, parse_byte_count, parse_request, read_address, read_number, transfer_succeeds,
    upload_result, value, value_or, ClientSpec, LabRequest, RequestReport, TransferSpec,
};
use faultline::net::{IpAddr, SocketAddr};

fn arguments(values: &[&str]) -> Vec<String> {
    values.iter().map(|value| (*value).to_owned()).collect()
}

fn local(port: u16) -> SocketAddr {
    SocketAddr { ip: IpAddr::parse("127.0.0.1").unwrap(), port, flow_info: 0, scope_id: 0 }
}

#[test]
fn options_take_the_argument_behind_them() {
    let given = arguments(&["client", "--address", "127.0.0.1:1", "--require-mixed", "--requests"]);
    assert_eq!(value(&given, "--address"), Ok("127.0.0.1:1"));
    assert_eq!(value(&given, "--port"), Err("missing --port".to_owned()));
    assert_eq!(
        value(&given, "--requests"),
        Err("missing value for --requests".to_owned())
    );
    assert_eq!(value_or(&given, "--requests", "3"), "3");
    assert_eq!(value_or(&given, "--address", "x"), "127.0.0.1:1");
    assert!(has_flag(&given, "--require-mixed"));
    assert!(!has_flag(&given, "--require-success"));
}

#[test]
fn requests_are_pings_downloads_and_uploads() {
    assert_eq!(parse_request("ping\n"), Ok(Some(LabRequest::Ping)));
    assert_eq!(
        parse_request("bytes 131072\n"),
        Ok(Some(LabRequest::Download(131_072)))
    );
    assert_eq!(
        parse_request("upload 5\r\n"),
        Ok(Some(LabRequest::Upload(5)))
    );
    assert_eq!(parse_request("hello\n"), Ok(None));
    assert_eq!(parse_request("delete 5\n"), Ok(None));
    assert_eq!(
        parse_request("bytes many\n"),
        Err("invalid byte count".to_owned())
    );
    assert_eq!(parse_byte_count("7"), Ok(7));
}

#[test]
fn transfers_must_be_complete_and_slow_enough() {
    assert_eq!(upload_result(4, 4), Ok(()));
    assert_eq!(
        upload_result(3, 4),
        Err("upload ended after 3 of 4 bytes".to_owned())
    );
    assert!(transfer_succeeds(4, 4, 10, 10));
    assert!(!transfer_succeeds(4, 4, 9, 10));
    assert!(!transfer_succeeds(3, 4, 10, 10));
}

#[test]
fn clients_are_described_by_their_arguments() {
    let given = arguments(&[
        "--address",
        "127.0.0.1:9",
        "--requests",
        "4",
        "--timeout-ms",
        "250",
        "--interval-ms",
        "5",
        "--require-failure",
    ]);
    let spec = ClientSpec::parse(&given).unwrap();
    assert_eq!(spec.address, local(9));
    assert_eq!((spec.requests, spec.timeout_ms, spec.interval_ms), (4, 250, 5));
    assert_eq!((spec.min_elapsed_ms, spec.min_spread_ms), (0, 0));
    assert!(spec.require_failure && !spec.require_success && !spec.require_mixed);
    assert!(spec.pauses_after(2));
    assert!(!spec.pauses_after(3));
    assert!(ClientSpec::parse(&arguments(&["--requests", "4"])).is_err());
    assert_eq!(read_number("12", 100), Ok(12));
    assert_eq!(
        read_number("", 100),
        Err("cannot parse integer from empty string".to_owned())
    );
    assert_eq!(
        read_number("1x", 100),
        Err("invalid digit found in string".to_owned())
    );
    assert_eq!(
        read_number("101", 100),
        Err("number too large to fit in target type".to_owned())
    );
}

#[test]
fn reports_keep_the_fastest_and_the_slowest_request() {
    let spec = ClientSpec {
        address: local(9),
        requests: 3,
        timeout_ms: 1,
        interval_ms: 0,
        min_elapsed_ms: 100,
        min_spread_ms: 30,
        require_success: false,
        require_failure: false,
        require_mixed: true,
    };
    let report = RequestReport::default()
        .record(true, Duration::from_millis(20))
        .record(false, Duration::from_millis(50))
        .record(true, Duration::from_micros(30_999));
    assert_eq!((report.succeeded, report.failed), (2, 1));
    assert_eq!((report.fastest_ms, report.slowest_ms), (Some(20), 50));
    assert_eq!(report.finish(&spec, Duration::from_millis(101)), (true, 30));
    assert_eq!(report.finish(&spec, Duration::from_millis(99)), (false, 30));
    let strict = ClientSpec { require_success: true, ..spec };
    assert!(!report.finish(&strict, Duration::from_millis(101)).0);
    assert_eq!(
        RequestReport::default().finish(&strict, Duration::from_millis(101)),
        (false, 0)
    );
}

#[test]
fn addresses_are_read_before_numbers() {
    let wrong = arguments(&["--address", "somewhere", "--requests", "many", "--bytes", "many"]);
    let complaint = "somewhere".parse::<core::net::SocketAddr>().unwrap_err().to_string();
    assert_eq!(ClientSpec::parse(&wrong), Err(complaint.clone()));
    assert_eq!(TransferSpec::parse(&wrong), Err(complaint.clone()));
    assert_eq!(read_address(&wrong, "--address"), Err(complaint));
    assert_eq!(read_address(&wrong, "--bind"), Err("missing --bind".to_owned()));
    let unnumbered = arguments(&["--address", "127.0.0.1:9", "--requests", "many"]);
    assert_eq!(
        ClientSpec::parse(&unnumbered),
        Err("invalid digit found in string".to_owned())
    );
    assert_eq!(
        ClientSpec::at_address(local(9), &unnumbered),
        Err("invalid digit found in string".to_owned())
    );
    assert_eq!(
        SocketAddr::parse("[2001:db8::1%7]:80"),
        Ok(SocketAddr {
            ip: IpAddr::parse("2001:db8::1").unwrap(),
            port: 80,
            flow_info: 0,
            scope_id: 7,
        })
    );
}

#[test]
fn transfers_are_described_by_their_arguments() {
    let given = arguments(&["--address", "127.0.0.1:9", "--bytes", "64", "--min-elapsed-ms", "5"]);
    let spec = TransferSpec { address: local(9), bytes: 64, timeout_ms: 10_000, min_elapsed_ms: 5 };
    assert_eq!(TransferSpec::parse(&given), Ok(spec));
    assert_eq!(TransferSpec::at_address(local(9), &given), Ok(spec));
    assert_eq!(
        TransferSpec::parse(&arguments(&["--address", "127.0.0.1:9"])),
        Err("missing --bytes".to_owned())
    );
    assert_eq!(
        TransferSpec::parse(&arguments(&["--address", "127.0.0.1:9", "--bytes", "-1"])),
        Err("invalid digit found in string".to_owned())
    );
}

#[test]
fn numbers_are_judged_from_the_left() {
    for text in ["99999999999x", "4294967296x", "+4294967296", "42949672950", "4294967295x", "+", "-1", "x9"] {
        let complaint = text.parse::<u32>().unwrap_err().to_string();
        assert_eq!(read_number(text, u32::MAX as u128), Err(complaint));
    }
    assert_eq!(
        read_number("99999999999x", u32::MAX as u128),
        Err("number too large to fit in target type".to_owned())
    );
    assert_eq!(
        read_number("4294967295x", u32::MAX as u128),
        Err("invalid digit found in string".to_owned())
    );
}
