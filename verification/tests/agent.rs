use faultline::agent::{
    after_attempt, awaits_engine, check_capabilities, closing_request, engine_result,
    is_disconnect, parse_effective_capabilities, settle_proxy, socket_path, Attempt, ConnectStep,
    Direction, Options, ProxyEnd, StreamError, CAP_BPF, CAP_NET_ADMIN, CAP_SYS_ADMIN,
    CONNECT_ATTEMPTS,
};
use faultline::common::FAULTLINE_AGENT_APPLICATION;
use faultline::protocol::Request;

#[test]
fn engine_command_contains_the_complete_dataplane_contract() {
    let options = Options {
        engine: "custom-faultline-engine".to_owned(),
        interface: "eth7".to_owned(),
        direction: Direction::Egress,
        destination: "10.20.0.0/16".to_owned(),
        protocol: "tcp".to_owned(),
        port: 443,
    };
    let (program, arguments) = options.engine_command("/tmp/agent.sock");

    assert_eq!(program, "custom-faultline-engine");
    assert_eq!(
        arguments,
        [
            "--interface",
            "eth7",
            "--direction",
            "egress",
            "--destination",
            "10.20.0.0/16",
            "--protocol",
            "tcp",
            "--port",
            "443",
            "--loss",
            "0",
            "--control-socket",
            "/tmp/agent.sock",
        ]
    );
}

#[test]
fn parses_effective_capability_mask() {
    let status = format!(
        "Name:\t{FAULTLINE_AGENT_APPLICATION}\nCapInh:\t0000000000000000\nCapEff:\t0000008000201000\n"
    );
    let capabilities = parse_effective_capabilities(&status).unwrap();
    assert_ne!(capabilities & (1_u64 << CAP_NET_ADMIN), 0);
    assert_ne!(capabilities & (1_u64 << CAP_SYS_ADMIN), 0);
    assert_ne!(capabilities & (1_u64 << CAP_BPF), 0);
}

#[test]
fn rejects_missing_or_malformed_effective_capability_mask() {
    assert!(
        parse_effective_capabilities(&format!("Name:\t{FAULTLINE_AGENT_APPLICATION}\n")).is_err()
    );
    assert!(parse_effective_capabilities("CapEff:\tnot-hex\n").is_err());
}

#[test]
fn capabilities_are_named_when_they_are_missing() {
    let all = (1_u64 << CAP_NET_ADMIN) | (1_u64 << CAP_BPF);
    assert_eq!(check_capabilities(all), Ok(()));
    assert_eq!(
        check_capabilities((1_u64 << CAP_NET_ADMIN) | (1_u64 << CAP_SYS_ADMIN)),
        Ok(())
    );
    let error = check_capabilities(0).unwrap_err();
    assert!(error.contains("CAP_NET_ADMIN"), "{error}");
    assert!(error.contains("CAP_BPF"), "{error}");
}

#[test]
fn connecting_is_given_up_after_a_hundred_attempts_or_an_early_exit() {
    assert_eq!(
        after_attempt(1, Attempt::Connected, "/tmp/a"),
        ConnectStep::Connected
    );
    assert_eq!(
        after_attempt(CONNECT_ATTEMPTS - 1, Attempt::NotYet, "/tmp/a"),
        ConnectStep::Retry
    );
    assert_eq!(
        after_attempt(CONNECT_ATTEMPTS, Attempt::NotYet, "/tmp/a"),
        ConnectStep::Failed("faultline-engine did not open /tmp/a".to_owned())
    );
    assert_eq!(
        after_attempt(1, Attempt::Exited("exit status: 1".to_owned()), "/tmp/a"),
        ConnectStep::Failed(
            "faultline-engine exited before opening control socket: exit status: 1".to_owned()
        )
    );
}

#[test]
fn sockets_of_two_agents_differ() {
    assert!(socket_path(12).contains("12"));
    assert_ne!(socket_path(12), socket_path(13));
}

#[test]
fn the_engine_reports_how_it_ended() {
    assert_eq!(engine_result(true, "exit status: 0"), Ok(()));
    assert!(engine_result(false, "exit status: 2")
        .unwrap_err()
        .contains("exit status: 2"));
}

#[test]
fn agents_close_with_a_stop_request() {
    assert_eq!(closing_request(), Request::Stop { id: u64::MAX });
}

#[test]
fn only_lost_peers_count_as_disconnects() {
    assert!(is_disconnect(StreamError::BrokenPipe));
    assert!(is_disconnect(StreamError::ConnectionReset));
    assert!(!is_disconnect(StreamError::Other));
}

#[test]
fn a_closed_input_leaves_the_last_words_of_the_engine_a_moment() {
    assert!(awaits_engine(ProxyEnd::Engine));
    assert!(!awaits_engine(ProxyEnd::Input));
    assert_eq!(settle_proxy(ProxyEnd::Input, None), ProxyEnd::Input);
    assert_eq!(
        settle_proxy(ProxyEnd::Input, Some(ProxyEnd::Engine)),
        ProxyEnd::Engine
    );
    assert_eq!(
        settle_proxy(ProxyEnd::Output, Some(ProxyEnd::Engine)),
        ProxyEnd::Output
    );
}
