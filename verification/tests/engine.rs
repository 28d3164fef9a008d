use faultline::common::{
    DiagnosticStats, RuleStats, LOSS_ALGORITHM_GILBERT_ELLIOTT, LOSS_ALGORITHM_HASH,
    LOSS_ALGORITHM_RANDOM, PROTOCOL_TCP,
};
use faultline::control::{
    failed_command, initial_command, schedule, ControlCommand, ControlPlane, Failure, OutageWindow,
};
use faultline::duration::Duration;
use faultline::net::IpNet;
use faultline::options::{
    pacing_required, parse_bandwidth, parse_duration, rule_requires_pacing, Direction,
    LossAlgorithm, Options, Protocol,
};
use faultline::protocol::RuleSpec;
use faultline::rule::Percent;
use faultline::rule_store::{Applied, RuleStore};
use faultline::stats::{
    accumulate, encode_msgpack, Previous, Rate, Share, StatsEvent, StatsFormat, StatsReporter,
    StatsSnapshot,
};

fn percent(value: f64) -> Percent {
    if !value.is_finite() || !(0.0..=100.0).contains(&value) {
        return Percent::Outside;
    }
    Percent::Within {
        positive: value > 0.0,
        permyriad: (value * 100.0).round() as u32,
    }
}

fn share(value: Share) -> f64 {
    if value.total == 0 {
        0.0
    } else {
        value.part as f64 * 100.0 / value.total as f64
    }
}

fn rate(value: Rate) -> f64 {
    if value.interval_ms == 0 {
        0.0
    } else {
        value.amount as f64 * 1_000.0 / value.interval_ms as f64
    }
}

fn options() -> Options {
    Options::new(
        "eth0".to_owned(),
        Some(IpNet::parse("10.20.0.0/16").unwrap()),
        None,
    )
}

fn rule() -> RuleSpec {
    RuleSpec {
        id: 0,
        source: None,
        destination: IpNet::parse("10.20.0.0/16").unwrap(),
        protocol: 6,
        loss_algorithm: LOSS_ALGORITHM_HASH,
        destination_port: 443,
        drop_permyriad: 500,
        ge_enter_permyriad: 0,
        ge_recover_permyriad: 0,
        ge_good_loss_permyriad: 0,
        ge_bad_loss_permyriad: 0,
        ge_idle_reset_secs: 0,
        duplicate_permyriad: 0,
        reorder_permyriad: 0,
        delay_ns: 0,
        jitter_ns: 0,
        bandwidth_bps: 0,
        seed: 42,
    }
}

#[test]
fn cli_source_sends_initial_rules_then_a_timed_stop() {
    let expected = rule();
    assert_eq!(
        initial_command(vec![expected]),
        ControlCommand::ReplaceRules(vec![expected])
    );
    let timed = schedule(&expected, Some(Duration::from_millis(1)), None);
    assert_eq!(timed.len(), 1);
    assert_eq!(timed[0].at, Duration::from_millis(1));
    assert_eq!(timed[0].command, ControlCommand::Stop);
}

#[test]
fn transport_validation_rejects_unknown_algorithms() {
    let mut rule = rule();
    rule.loss_algorithm = 99;
    assert!(rule.validate().is_err());
}

#[test]
fn transport_validation_rejects_invalid_loss_rates() {
    let mut rule = rule();
    rule.drop_permyriad = 10_001;
    assert!(rule.validate().is_err());
}

#[test]
fn source_cidr_is_compiled_in_packet_byte_order() {
    let mut rule = rule();
    rule.source = IpNet::parse("192.0.2.0/24");
    let (network, mask) = rule.source_network_and_mask();

    assert_eq!([192, 0, 2, 42][2] & mask[2], network[2]);
    assert_ne!([192, 0, 3, 42][2] & mask[2], network[2]);
}

#[test]
fn mixed_address_families_are_rejected() {
    let mut value = rule();
    value.source = IpNet::parse("2001:db8::/32");
    assert!(value.source.is_some());
    assert!(value
        .validate()
        .unwrap_err()
        .contains("mixes IPv4 and IPv6"));
}

#[test]
fn outage_temporarily_replaces_loss_with_one_hundred_percent() {
    let expected = rule();
    let timed = schedule(
        &expected,
        None,
        Some(OutageWindow {
            after: Duration::from_millis(0),
            duration: Duration::from_millis(1),
        }),
    );

    let ControlCommand::ReplaceRules(outage) = &timed[0].command else {
        panic!("expected outage rule");
    };
    assert_eq!(outage[0].drop_permyriad, 10_000);
    assert_eq!(outage[0].loss_algorithm, LOSS_ALGORITHM_HASH);
    assert_eq!(
        timed[1].command,
        ControlCommand::ReplaceRules(vec![expected])
    );
    assert_eq!(timed[0].at, Duration::from_millis(0));
    assert_eq!(timed[1].at, Duration::from_millis(1));
}

#[test]
fn per_cpu_stats_accumulate_every_counter() {
    let first = RuleStats {
        matched: 1,
        dropped: 2,
        matched_segments: 3,
        dropped_segments: 4,
        matched_bytes: 5,
        dropped_bytes: 6,
        gso_skbs: 7,
        duplicated: 8,
        reordered: 9,
        delayed: 10,
        pacing_dropped: 11,
    };
    assert_eq!(
        accumulate(&[first, first]),
        RuleStats {
            matched: 2,
            dropped: 4,
            matched_segments: 6,
            dropped_segments: 8,
            matched_bytes: 10,
            dropped_bytes: 12,
            gso_skbs: 14,
            duplicated: 16,
            reordered: 18,
            delayed: 20,
            pacing_dropped: 22,
        }
    );

    let first = DiagnosticStats {
        seen: 1,
        duplicate_bypass: 2,
        non_ip: 3,
        malformed: 4,
        no_rules: 5,
        destination_miss: 6,
        source_miss: 7,
        protocol_miss: 8,
        fragment_port_miss: 9,
        port_miss: 10,
        invalid_rule: 11,
    };
    assert_eq!(
        accumulate(&[first, first]),
        DiagnosticStats {
            seen: 2,
            duplicate_bypass: 4,
            non_ip: 6,
            malformed: 8,
            no_rules: 10,
            destination_miss: 12,
            source_miss: 14,
            protocol_miss: 16,
            fragment_port_miss: 18,
            port_miss: 20,
            invalid_rule: 22,
        }
    );
}

#[test]
fn accepts_a_tcp_port_rule() {
    let mut options = options();
    options.protocol = Protocol::Tcp;
    options.port = 443;
    options.loss = percent(5.0);
    assert!(options.validate().is_ok());
}

#[test]
fn scenario_replaces_inline_rule_arguments() {
    let options = Options::new("eth0".to_owned(), None, Some("scenario.json".to_owned()));
    assert!(options.destination.is_none());
    assert!(options.validate().is_ok());
}

#[test]
fn rejects_loss_above_one_hundred_percent() {
    let mut options = options();
    options.loss = percent(100.1);
    assert!(options.validate().is_err());
}

#[test]
fn rejects_a_port_without_tcp_or_udp() {
    let mut options = options();
    options.port = 443;
    options.loss = percent(5.0);
    assert!(options.validate().is_err());
}

#[test]
fn parses_runtime_durations() {
    assert_eq!(parse_duration("250ms").unwrap(), Duration::from_millis(250));
    assert_eq!(parse_duration("30s").unwrap(), Duration::from_secs(30));
    assert_eq!(parse_duration("2m").unwrap(), Duration::from_secs(120));
    assert!(parse_duration("30").is_err());
    assert!(parse_duration("1h").is_err());
}

#[test]
fn parses_decimal_bandwidth_units() {
    assert_eq!(parse_bandwidth("10kbit").unwrap(), 10_000);
    assert_eq!(parse_bandwidth("10mbit").unwrap(), 10_000_000);
    assert_eq!(parse_bandwidth("10gbit").unwrap(), 10_000_000_000);
    assert!(parse_bandwidth("10mbps").is_err());
    assert!(parse_bandwidth("0mbit").is_err());
}

#[test]
fn cli_is_decoded_into_a_transport_independent_rule() {
    let mut options = options();
    options.protocol = Protocol::Tcp;
    options.port = 443;
    options.loss = percent(5.0);
    options.seed = 42;
    let rule = options.compile_rule();
    assert_eq!(rule.source, None);
    assert_eq!(Some(rule.destination), options.destination);
    assert_eq!(rule.protocol, PROTOCOL_TCP);
    assert_eq!(rule.loss_algorithm, LOSS_ALGORITHM_HASH);
    assert_eq!(rule.destination_port, 443);
    assert_eq!(rule.drop_permyriad, 500);
    assert_eq!(rule.seed, 42);
}

#[test]
fn decodes_an_optional_source_cidr() {
    let mut options = options();
    options.source = IpNet::parse("192.0.2.0/24");
    options.loss = percent(5.0);

    assert_eq!(
        options.compile_rule().source,
        Some(IpNet::parse("192.0.2.0/24").unwrap())
    );
}

#[test]
fn selects_the_random_loss_algorithm() {
    let mut options = options();
    options.loss = percent(5.0);
    options.loss_algorithm = LossAlgorithm::Random;
    assert_eq!(options.compile_rule().loss_algorithm, LOSS_ALGORITHM_RANDOM);
}

#[test]
fn burst_options_compile_to_an_ebpf_gilbert_elliott_rule() {
    let mut options = options();
    options.direction = Direction::Ingress;
    options.burst_loss = Some(percent(1.0));
    options.burst_recovery = percent(25.0);
    options.burst_good_loss = percent(0.1);
    options.burst_bad_loss = percent(90.0);
    options.burst_idle_reset = Some(parse_duration("30s").unwrap());

    assert!(options.validate().is_ok());
    let rule = options.compile_rule();
    assert_eq!(rule.loss_algorithm, LOSS_ALGORITHM_GILBERT_ELLIOTT);
    assert_eq!(rule.ge_enter_permyriad, 100);
    assert_eq!(rule.ge_recover_permyriad, 2_500);
    assert_eq!(rule.ge_good_loss_permyriad, 10);
    assert_eq!(rule.ge_bad_loss_permyriad, 9_000);
    assert_eq!(rule.ge_idle_reset_secs, 30);
    assert!(!rule_requires_pacing(&rule));
}

#[test]
fn stats_snapshot_contains_totals_deltas_and_loss_rate() {
    let mut reporter = StatsReporter::new(StatsFormat::Json);
    reporter.previous.insert(
        7,
        Previous {
            total: RuleStats {
                matched: 80,
                dropped: 20,
                matched_segments: 800,
                dropped_segments: 240,
                matched_bytes: 80_000,
                dropped_bytes: 16_000,
                ..Default::default()
            },
            elapsed_ms: 0,
        },
    );

    let snapshot = reporter.snapshot(
        7,
        RuleStats {
            matched: 100,
            dropped: 25,
            matched_segments: 1_000,
            dropped_segments: 250,
            matched_bytes: 100_000,
            dropped_bytes: 20_000,
            gso_skbs: 90,
            ..Default::default()
        },
        0,
    );

    assert_eq!(snapshot.rule_id, 7);
    assert_eq!(snapshot.matched, 100);
    assert_eq!(snapshot.dropped, 25);
    assert_eq!(snapshot.matched_delta, 20);
    assert_eq!(snapshot.dropped_delta, 5);
    assert_eq!(snapshot.matched_segments_delta, 200);
    assert_eq!(snapshot.dropped_segments_delta, 10);
    assert_eq!(snapshot.matched_bytes_delta, 20_000);
    assert_eq!(snapshot.dropped_bytes_delta, 4_000);
    assert_eq!(snapshot.gso_skbs_delta, 90);
    assert_eq!(snapshot.pacing_dropped_delta, 0);
    assert_eq!(share(snapshot.loss_percent()), 25.0);
    assert_eq!(share(snapshot.segment_loss_percent()), 25.0);
    assert_eq!(share(snapshot.byte_loss_percent()), 20.0);
}

#[test]
fn stats_loss_rate_is_zero_before_any_match() {
    assert_eq!(share(StatsSnapshot::default().loss_percent()), 0.0);
}

#[test]
fn stats_event_exposes_interval_rates_and_impairment_ratios() {
    let event = StatsEvent::from_snapshot(StatsSnapshot {
        interval_ms: 500,
        matched_delta: 100,
        dropped_delta: 25,
        matched_segments_delta: 200,
        dropped_segments_delta: 20,
        matched_bytes_delta: 1_000_000,
        dropped_bytes_delta: 250_000,
        gso_skbs_delta: 40,
        duplicated_delta: 10,
        reordered_delta: 5,
        delayed_delta: 50,
        pacing_dropped_delta: 2,
        ..Default::default()
    });

    assert_eq!(share(event.skb_loss_interval), 25.0);
    assert_eq!(share(event.segment_loss_interval), 10.0);
    assert_eq!(share(event.byte_loss_interval), 25.0);
    assert_eq!(rate(event.matched_packets), 200.0);
    assert_eq!(rate(event.dropped_packets), 50.0);
    assert_eq!(rate(event.wire_bytes) * 8.0 / 1_000_000.0, 16.0);
    assert_eq!(rate(event.dropped_bytes) * 8.0 / 1_000_000.0, 4.0);
    assert_eq!(share(event.gso_interval), 40.0);
    assert_eq!(share(event.duplicated_interval), 10.0);
    assert_eq!(share(event.reordered_interval), 5.0);
    assert_eq!(share(event.delayed_interval), 50.0);
    assert_eq!(share(event.pacing_dropped_interval), 2.0);
}

#[test]
fn msgpack_stats_are_prefixed_with_a_big_endian_frame_length() {
    let payload = rmp_serde::to_vec(&(7_u32, 1_000_u64, 100_u64, 25_u64, 20_u64, 5_u64)).unwrap();
    let frame = encode_msgpack(&payload).unwrap();
    let payload_length = u32::from_be_bytes(frame[..4].try_into().unwrap()) as usize;

    assert_eq!(payload_length, frame.len() - 4);
    assert!(!frame[4..].is_empty());
    assert_eq!(frame[4..], payload[..]);
}

#[test]
fn accepts_queue_impairment_options_on_egress() {
    let mut options = options();
    options.direction = Direction::Egress;
    options.delay = Some(parse_duration("100ms").unwrap());
    options.jitter = Some(parse_duration("20ms").unwrap());
    options.duplicate = percent(2.0);
    options.reorder = percent(5.0);
    options.bandwidth = Some("10mbit".to_owned());
    options.burst_loss = Some(percent(1.0));

    assert!(options.validate().is_ok());
    let rule = options.compile_rule();
    assert!(rule_requires_pacing(&rule));
    assert_eq!(rule.delay_ns, 100_000_000);
    assert_eq!(rule.jitter_ns, 20_000_000);
    assert_eq!(rule.duplicate_permyriad, 200);
    assert_eq!(rule.reorder_permyriad, 500);
    assert_eq!(rule.bandwidth_bps, 10_000_000);
}

#[test]
fn rejects_queue_impairments_on_ingress() {
    let mut options = options();
    options.direction = Direction::Ingress;
    options.delay = Some(parse_duration("10ms").unwrap());

    assert!(options.validate().is_err());
}

#[test]
fn decodes_an_outage_window() {
    let mut options = options();
    options.outage_after = Some(parse_duration("2s").unwrap());
    options.outage_duration = Some(parse_duration("500ms").unwrap());

    assert_eq!(
        options.outage(),
        Some(OutageWindow {
            after: Duration::from_secs(2),
            duration: Duration::from_millis(500),
        })
    );
}

#[test]
fn loss_quantization_is_explicit_and_rejects_values_that_disappear() {
    let mut too_small = options();
    too_small.loss = percent(0.001);
    assert!(too_small.validate().is_err());
    assert_eq!(percent(0.01).quantize_loss(), 1);
    assert_eq!(percent(12.345).quantize_loss(), 1235);
}

#[test]
fn stats_deltas_are_tracked_independently_per_rule() {
    let mut reporter = StatsReporter::new(StatsFormat::Json);
    let first = reporter.snapshot(
        1,
        RuleStats {
            matched: 10,
            dropped: 2,
            pacing_dropped: 1,
            ..Default::default()
        },
        0,
    );
    let second = reporter.snapshot(
        2,
        RuleStats {
            matched: 20,
            dropped: 5,
            ..Default::default()
        },
        0,
    );

    assert_eq!(first.matched_delta, 10);
    assert_eq!(first.pacing_dropped_delta, 1);
    assert_eq!(second.matched_delta, 20);
}

#[test]
fn deltas_of_one_rule_add_up_to_its_total() {
    let mut reporter = StatsReporter::new(StatsFormat::Text);
    let mut sum = 0;
    for (step, matched) in [5_u64, 9, 9, 40].into_iter().enumerate() {
        let snapshot = reporter.snapshot(
            3,
            RuleStats {
                matched,
                ..Default::default()
            },
            step as u64 * 100,
        );
        sum += snapshot.matched_delta;
        assert_eq!(sum, matched);
        assert_eq!(snapshot.interval_ms, if step == 0 { 0 } else { 100 });
    }
}

#[test]
fn diagnostics_are_reported_apart_from_rules() {
    let mut reporter = StatsReporter::new(StatsFormat::Json);
    let total = DiagnosticStats {
        seen: 12,
        port_miss: 3,
        ..Default::default()
    };
    let first = reporter.emit_diagnostics(total, 500);
    assert_eq!(first.delta, total);
    assert_eq!(rate(first.seen_packets), 24.0);
    let second = reporter.emit_diagnostics(total, 900);
    assert_eq!(second.delta, DiagnosticStats::default());
    assert_eq!(second.interval_ms, 400);
    assert!(reporter.previous.is_empty());
}

#[test]
fn option_errors_name_their_option() {
    let mut zero_interval = options();
    zero_interval.stats_interval = Duration::from_millis(0);
    assert!(zero_interval
        .validate()
        .unwrap_err()
        .contains("--stats-interval"));

    let mut scenario = Options::new("eth0".to_owned(), None, Some("a.yaml".to_owned()));
    scenario.outage_after = Some(Duration::from_secs(1));
    assert_eq!(
        scenario.validate().unwrap_err(),
        "--outage-after/--outage-duration are inline-rule options and cannot be used with --scenario"
    );

    let nothing = Options::new("eth0".to_owned(), None, None);
    assert_eq!(
        nothing.validate().unwrap_err(),
        "inline destination is required"
    );
}

#[test]
fn duration_and_bandwidth_errors_say_what_is_wrong() {
    assert_eq!(
        parse_duration("5h").unwrap_err(),
        "duration must end in ms, s, or m"
    );
    assert_eq!(
        parse_duration("xs").unwrap_err(),
        "duration must contain an unsigned integer"
    );
    assert_eq!(
        parse_duration("18446744073709551615m").unwrap_err(),
        "duration is too large"
    );
    assert_eq!(
        parse_duration("+7s").unwrap(),
        Duration::from_secs(7)
    );
}

#[test]
fn pacing_is_installed_where_a_rule_or_a_client_may_need_it() {
    let mut delayed = rule();
    delayed.delay_ns = 1;
    assert!(!pacing_required(&vec![rule()], false, Direction::Egress));
    assert!(pacing_required(&vec![delayed], false, Direction::Egress));
    assert!(pacing_required(&vec![rule()], true, Direction::Egress));
    assert!(!pacing_required(&vec![rule()], true, Direction::Ingress));
}

#[test]
fn commands_publish_generations_and_keep_the_rules_until_then() {
    let mut plane = ControlPlane {
        direction: Direction::Egress,
        store: RuleStore::new(),
        active_rules: Vec::new(),
    };
    let command = ControlCommand::ReplaceRules(vec![rule()]);
    let Applied::Publish(generation) = plane.handle_command(&command).unwrap() else {
        panic!("expected a generation");
    };
    assert_eq!(generation.number, 1);
    assert_eq!(generation.rule_ids, vec![0]);
    assert!(plane.state().rules.is_empty());
    plane.published(vec![rule()], generation);
    assert_eq!(plane.state().rules, vec![rule()]);

    let mut broken = rule();
    broken.loss_algorithm = 9;
    assert!(plane
        .handle_command(&ControlCommand::ReplaceRules(vec![broken]))
        .is_err());
    assert_eq!(plane.state().rules, vec![rule()]);
    assert!(matches!(
        plane.handle_command(&ControlCommand::Stop),
        Ok(Applied::Stop)
    ));
}

#[test]
fn only_commands_that_nobody_waits_for_end_the_session() {
    assert_eq!(
        failed_command("no".to_owned(), true),
        Failure::Answer("no".to_owned())
    );
    assert_eq!(
        failed_command("no".to_owned(), false),
        Failure::Abort("no".to_owned())
    );
}
