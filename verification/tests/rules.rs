use faultline::attachment::{
    decide_removal, filter_args, uses_tcx, AddOutcome, ClsactGuard, Listing, Removal,
};
use faultline::common::{
    LOSS_ALGORITHM_HASH, RULE_NAMESPACE_SOURCE_V4, RULE_NAMESPACE_SOURCE_V6, RULE_NODE_DESTINATION,
    RULE_NODE_SOURCE,
};
use faultline::control::ControlCommand;
use faultline::net::IpNet;
use faultline::options::{LossAlgorithm, Protocol};
use faultline::pacing::{ensure_success, install_args, PacingBackend, PacingGuard};
use faultline::protocol::{
    encode_line, ControlState, ControlTimeouts, Request, Response, RuleSpec, Timeline,
    TimelineEvent, TimelineKind, TIMELINE_VERSION,
};
use faultline::rule::Percent;
use faultline::rule_store::{
    destination_key, fault_rule_from_spec, source_key, Applied, RuleStore,
};
use faultline::scenario::{compile_scenario, decode_as, Encoding, ScenarioRule};
use faultline::socket::{
    claim_path, reject_line, request_id, serve_reply, serve_request, LoopReply, PathState, Pending,
    Serving,
};

fn network(text: &str) -> IpNet {
    IpNet::parse(text).unwrap()
}

fn rule(id: u32) -> RuleSpec {
    RuleSpec {
        id,
        source: None,
        destination: network("10.0.0.0/8"),
        protocol: 0,
        loss_algorithm: LOSS_ALGORITHM_HASH,
        destination_port: 0,
        drop_permyriad: 500,
        ge_enter_permyriad: 0,
        ge_recover_permyriad: 0,
        ge_good_loss_permyriad: 0,
        ge_bad_loss_permyriad: 0,
        ge_idle_reset_secs: 0,
        duplicate_permyriad: 0,
        reorder_permyriad: 0,
        delay_ns: 0,
        jitter_ns: 0,
        bandwidth_bps: 0,
        seed: 1,
    }
}

#[test]
fn installs_only_fq_parameters() {
    assert_eq!(
        install_args("eth0"),
        [
            "qdisc",
            "add",
            "dev",
            "eth0",
            "root",
            "handle",
            "7fff:",
            "fq",
            "limit",
            "100000",
            "flow_limit",
            "4294967295",
            "horizon",
            "86400s",
            "horizon_cap"
        ]
    );
}

#[test]
fn pacing_takes_off_only_what_it_put_on() {
    assert_eq!(PacingBackend.install("eth0", false), None);
    assert_eq!(
        PacingBackend.install("eth0", true),
        Some(install_args("eth0"))
    );
    let guard = PacingGuard {
        interface: "eth0".to_owned(),
    };
    assert_eq!(
        guard.remove_args(),
        ["qdisc", "del", "dev", "eth0", "root", "handle", "7fff:"]
    );
    assert_eq!(ensure_success("tc", true, "noise"), Ok(()));
    assert_eq!(
        ensure_success("tc", false, " busy \n").unwrap_err(),
        "tc failed: busy. faultline-engine does not replace an existing root qdisc"
    );
}

#[test]
fn attachments_leave_the_filters_of_others_alone() {
    assert!(uses_tcx(6, 6));
    assert!(!uses_tcx(6, 5));
    assert!(uses_tcx(7, 0));
    assert_eq!(
        filter_args("eth0", "ingress"),
        ["filter", "show", "dev", "eth0", "ingress"]
    );
    let empty = Listing {
        success: true,
        stdout: b" \n".to_vec(),
    };
    let held = Listing {
        success: true,
        stdout: b"filter protocol ip".to_vec(),
    };
    let failed = Listing {
        success: false,
        stdout: Vec::new(),
    };
    assert_eq!(decide_removal(&empty, &empty), Removal::Remove);
    assert_eq!(decide_removal(&empty, &held), Removal::OthersRemain);
    assert_eq!(decide_removal(&held, &failed), Removal::OthersRemain);
    assert_eq!(decide_removal(&failed, &empty), Removal::Unknown);
    let owned = ClsactGuard::install("eth0", AddOutcome::Added).unwrap();
    assert!(owned.is_some());
    assert!(ClsactGuard::install("eth0", AddOutcome::Exists)
        .unwrap()
        .is_none());
}

#[test]
fn source_keys_partition_destinations_and_preserve_prefix_length() {
    let destination = network("10.0.0.0/8");
    let source = Some(network("192.0.2.0/24"));
    let first = source_key(7, &destination, &source);
    let second = source_key(8, &destination, &source);

    assert_eq!(first.prefix_len, 40 + 24);
    assert_eq!(first.data[0], RULE_NAMESPACE_SOURCE_V4);
    assert_eq!(&first.data[1..5], &7u32.to_be_bytes());
    assert_eq!(&first.data[5..9], &[192, 0, 2, 0]);
    assert_ne!(first.data, second.data);
}

#[test]
fn catch_all_source_stops_after_the_namespace_and_destination_id() {
    let destination = network("2001:db8::/32");
    let key = source_key(11, &destination, &None);

    assert_eq!(key.prefix_len, 40);
    assert_eq!(key.data[0], RULE_NAMESPACE_SOURCE_V6);
    assert_eq!(&key.data[1..5], &11u32.to_be_bytes());
    assert_eq!(&key.data[5..], &[0; 19]);
}

#[test]
fn destination_keys_hold_no_bits_behind_the_prefix() {
    let key = destination_key(&network("10.1.2.3/8"));
    assert_eq!(key.prefix_len, 16);
    assert_eq!(&key.data[..6], &[4, 10, 0, 0, 0, 0]);
    let v6 = destination_key(&network("2001:db8::1/32"));
    assert_eq!(v6.prefix_len, 40);
    assert_eq!(&v6.data[..6], &[6, 0x20, 0x01, 0x0d, 0xb8, 0]);
}

#[test]
fn a_ruleset_becomes_one_generation_with_entries_for_every_rule() {
    let mut client = rule(4);
    client.source = Some(network("192.0.2.0/24"));
    let mut elsewhere = rule(9);
    elsewhere.destination = network("9.0.0.0/8");
    let mut store = RuleStore::new();
    let Applied::Publish(generation) = store
        .apply(&ControlCommand::ReplaceRules(vec![
            rule(3),
            client,
            elsewhere,
        ]))
        .unwrap()
    else {
        panic!("expected a generation");
    };
    assert_eq!(generation.number, 1);
    assert_eq!(generation.rule_ids, vec![3, 4, 9]);
    assert_eq!(generation.pace_keys.len(), 3);
    assert!(generation.pace_keys.iter().all(|key| key.generation == 1));
    let kinds = generation
        .entries
        .iter()
        .map(|entry| entry.node.kind)
        .collect::<Vec<_>>();
    assert_eq!(
        kinds,
        vec![
            RULE_NODE_DESTINATION,
            RULE_NODE_SOURCE,
            RULE_NODE_DESTINATION,
            RULE_NODE_SOURCE,
            RULE_NODE_SOURCE
        ]
    );
    store.published(generation);
    assert_eq!(store.active_rule_ids(), &vec![3, 4, 9]);
    let next = store.replace(&vec![rule(3)]).unwrap();
    assert_eq!(next.number, 2);
}

#[test]
fn more_than_sixteen_sources_share_one_destination() {
    let rules = (0..40)
        .map(|id| {
            let mut value = rule(id);
            value.source = IpNet::parse(&format!("192.0.2.{id}/32"));
            value
        })
        .collect::<Vec<_>>();
    let generation = RuleStore::new().replace(&rules).unwrap();
    assert_eq!(generation.entries.len(), 41);
}

#[test]
fn rulesets_that_cannot_be_told_apart_are_refused() {
    let store = RuleStore::new();
    assert_eq!(
        store.replace(&Vec::new()).unwrap_err(),
        "a scenario must contain at least one rule"
    );
    assert_eq!(
        store.replace(&vec![rule(1), rule(1)]).unwrap_err(),
        "duplicate rule id: 1"
    );
    let mut explicit = rule(2);
    explicit.source = Some(network("0.0.0.0/0"));
    assert_eq!(
        store.replace(&vec![rule(1), explicit]).unwrap_err(),
        "duplicate source prefix Some(0.0.0.0/0) for destination 10.0.0.0/8"
    );
    let mut v6 = rule(1);
    v6.destination = network("2001:db8::/32");
    let mut again = v6;
    again.id = 2;
    assert_eq!(
        store.replace(&vec![v6, again]).unwrap_err(),
        "duplicate source prefix None for destination 2001:db8::/32"
    );
    let many = (0..1025).map(rule).collect::<Vec<_>>();
    assert_eq!(
        store.replace(&many).unwrap_err(),
        "a scenario may contain at most 1024 rules"
    );
}

#[test]
fn compiled_rules_carry_their_filter_in_packet_order() {
    let mut spec = rule(5);
    spec.source = Some(network("192.0.2.77/24"));
    spec.destination_port = 53;
    spec.protocol = 17;
    let compiled = fault_rule_from_spec(&spec);
    assert_eq!(compiled.id, 5);
    assert_eq!(&compiled.source_network[..4], &[192, 0, 2, 0]);
    assert_eq!(&compiled.source_mask[..4], &[255, 255, 255, 0]);
    assert_eq!(compiled.source_prefix_len, 24);
    assert_eq!(compiled.destination_port, 53);
    assert_eq!(compiled.address_family, 4);
}

#[test]
fn decodes_multiple_dual_stack_rules() {
    let mut first = ScenarioRule::new(1, network("10.0.0.0/8"));
    first.protocol = Protocol::Tcp;
    first.port = 443;
    first.loss = Percent::of(500);
    let mut second = ScenarioRule::new(2, network("2001:db8:2::/48"));
    second.source = Some(network("2001:db8:1::/48"));
    second.delay = Some("20ms".to_owned());
    second.jitter = Some("5ms".to_owned());
    second.bandwidth = Some("10mbit".to_owned());
    let rules = compile_scenario(&vec![first, second]).unwrap();
    assert_eq!(rules.len(), 2);
    assert_eq!(rules[0].drop_permyriad, 500);
    assert_eq!(rules[1].delay_ns, 20_000_000);
    assert_eq!(rules[1].bandwidth_bps, 10_000_000);
}

#[test]
fn rejects_ambiguous_extensions() {
    assert!(decode_as("scenario", Some("txt")).is_err());
    assert_eq!(decode_as("scenario", Some("yaml")), Ok(Encoding::Yaml));
    assert_eq!(decode_as("scenario", Some("yml")), Ok(Encoding::Yaml));
    assert_eq!(decode_as("timeline", Some("json")), Ok(Encoding::Json));
    assert_eq!(
        decode_as("timeline", None).unwrap_err(),
        "timeline file must have a .yaml, .yml, or .json extension"
    );
}

#[test]
fn scenario_and_cli_share_ambiguous_loss_validation() {
    let mut both = ScenarioRule::new(1, network("10.0.0.0/8"));
    both.loss = Percent::of(500);
    both.burst_loss = Some(Percent::of(100));
    assert!(both.compile().is_err());
    let mut random = ScenarioRule::new(1, network("10.0.0.0/8"));
    random.loss_algorithm = LossAlgorithm::Random;
    random.burst_loss = Some(Percent::of(100));
    assert!(random.compile().is_err());
}

#[test]
fn scenario_errors_name_the_rule_and_the_field() {
    let mut slow = ScenarioRule::new(6, network("10.0.0.0/8"));
    slow.delay = Some("20".to_owned());
    let error = slow.compile().unwrap_err();
    assert!(error.starts_with("rule 6 has invalid delay: "), "{error}");
    let mut narrow = ScenarioRule::new(6, network("10.0.0.0/8"));
    narrow.bandwidth = Some("1mbps".to_owned());
    let error = narrow.compile().unwrap_err();
    assert!(
        error.starts_with("rule 6 has invalid bandwidth: "),
        "{error}"
    );
}

#[test]
fn json_lines_round_trip_waits_for_apply_and_pushes_stats() {
    let state = ControlState {
        rules: vec![rule(100)],
    };
    let Serving::Reply(pong) = serve_request(Request::Ping { id: 1 }, &state) else {
        panic!("ping is answered at once");
    };
    assert_eq!(pong, Response::Pong { id: 1 });
    let Serving::Reply(Response::State { id, state: shown }) =
        serve_request(Request::GetState { id: 2 }, &state)
    else {
        panic!("the state is answered at once");
    };
    assert_eq!((id, &shown), (2, &state));

    let request = Request::ReplaceRules {
        id: 3,
        rules: vec![rule(250)],
    };
    let Serving::Submit(command, pending) = serve_request(request, &state) else {
        panic!("replace expected");
    };
    assert_eq!(command, ControlCommand::ReplaceRules(vec![rule(250)]));
    let applied = serve_reply(
        &pending,
        LoopReply::Done(ControlState {
            rules: vec![rule(250)],
        }),
    );
    assert_eq!(
        applied,
        Response::Applied {
            id: 3,
            state: ControlState {
                rules: vec![rule(250)]
            }
        }
    );
}

#[test]
fn malformed_request_returns_an_error_with_its_id() {
    let response = reject_line(
        "{\"type\":\"unknown\",\"id\":77}",
        "unknown variant".to_owned(),
    );
    assert_eq!(
        response,
        Response::Error {
            id: Some(77),
            message: "unknown variant".to_owned()
        }
    );
    assert_eq!(request_id("{\"id\":-3}"), None);
    assert_eq!(request_id("nonsense"), None);
    assert_eq!(request_id("{\"id\":18446744073709551615}"), Some(u64::MAX));
}

#[test]
fn control_loop_request_has_a_deadline() {
    let pending = Pending {
        id: 8,
        stopping: true,
    };
    let Response::Error { id, message } = serve_reply(&pending, LoopReply::TimedOut) else {
        panic!("expected an error");
    };
    assert_eq!(id, Some(8));
    assert!(message.contains("timed out"));
    assert_eq!(
        serve_reply(
            &pending,
            LoopReply::Done(ControlState { rules: Vec::new() })
        ),
        Response::Stopping { id: 8 }
    );
    assert_eq!(
        serve_reply(&pending, LoopReply::Refused("no".to_owned())),
        Response::Error {
            id: Some(8),
            message: "no".to_owned()
        }
    );
    assert_eq!(
        serve_reply(&pending, LoopReply::NotRunning),
        Response::Error {
            id: Some(8),
            message: "control loop is not running".to_owned()
        }
    );
    assert_eq!(
        serve_reply(&pending, LoopReply::Closed),
        Response::Error {
            id: Some(8),
            message: "control loop closed without a response".to_owned()
        }
    );
}

#[test]
fn control_sockets_replace_nothing_but_stale_sockets() {
    assert_eq!(claim_path("/tmp/s", PathState::Absent), Ok(false));
    assert_eq!(claim_path("/tmp/s", PathState::Stale), Ok(true));
    assert_eq!(
        claim_path("/tmp/s", PathState::Active).unwrap_err(),
        "control socket /tmp/s is already active"
    );
    assert_eq!(
        claim_path("/tmp/s", PathState::Occupied).unwrap_err(),
        "refusing to replace non-socket control path /tmp/s"
    );
}

#[test]
fn timeline_round_trips_and_validates_atomic_events() {
    let timeline = Timeline {
        version: TIMELINE_VERSION,
        kind: TimelineKind::Profile,
        name: Some("brief outage".to_owned()),
        target: None,
        duration_ms: 500,
        events: vec![
            TimelineEvent {
                at_ms: 0,
                rules: vec![rule(0)],
            },
            TimelineEvent {
                at_ms: 250,
                rules: vec![rule(0), rule(1)],
            },
        ],
    };
    timeline.validate().unwrap();
}

#[test]
fn timeline_rejects_non_increasing_events_and_duplicate_rule_ids() {
    let mut timeline = Timeline {
        version: TIMELINE_VERSION,
        kind: TimelineKind::Replay,
        name: None,
        target: None,
        duration_ms: 10,
        events: vec![
            TimelineEvent {
                at_ms: 0,
                rules: vec![rule(0)],
            },
            TimelineEvent {
                at_ms: 10,
                rules: vec![rule(0), rule(0)],
            },
        ],
    };
    assert!(timeline.validate().unwrap_err().contains("repeats rule id"));
    timeline.events[1] = TimelineEvent {
        at_ms: 0,
        rules: vec![rule(1)],
    };
    assert!(timeline
        .validate()
        .unwrap_err()
        .contains("must occur after the previous event"));
    timeline.events[1].at_ms = 9;
    timeline.events.push(TimelineEvent {
        at_ms: 8,
        rules: vec![rule(2)],
    });
    assert!(timeline
        .validate()
        .unwrap_err()
        .contains("must occur after the previous event"));
}

#[test]
fn timeline_errors_come_in_their_order() {
    let mut timeline = Timeline {
        version: 2,
        kind: TimelineKind::Profile,
        name: None,
        target: None,
        duration_ms: 0,
        events: Vec::new(),
    };
    assert_eq!(
        timeline.validate().unwrap_err(),
        "unsupported timeline version 2; expected 1"
    );
    timeline.version = TIMELINE_VERSION;
    assert_eq!(
        timeline.validate().unwrap_err(),
        "timeline must contain at least one event"
    );
    timeline.events.push(TimelineEvent {
        at_ms: 5,
        rules: Vec::new(),
    });
    assert_eq!(
        timeline.validate().unwrap_err(),
        "timeline must begin at at_ms=0"
    );
    timeline.events[0].at_ms = 0;
    assert_eq!(
        timeline.validate().unwrap_err(),
        "timeline event 0 has no rules"
    );
    timeline.events[0].rules.push(rule(0));
    timeline.events.push(TimelineEvent {
        at_ms: 7,
        rules: vec![rule(0)],
    });
    assert_eq!(
        timeline.validate().unwrap_err(),
        "timeline duration ends before its final event"
    );
    timeline.duration_ms = 7;
    assert_eq!(timeline.validate(), Ok(()));
}

#[test]
fn encoded_lines_end_with_a_newline() {
    let line = encode_line(b"{\"type\":\"ping\",\"id\":7}".to_vec());
    assert_eq!(line.last(), Some(&b'\n'));
    let value = serde_json::from_slice::<serde_json::Value>(&line).unwrap();
    assert_eq!(value["id"], 7);
}

#[test]
fn control_timeouts_are_seconds_not_minutes() {
    let timeouts = ControlTimeouts::default();
    assert_eq!(timeouts.acknowledgement.nanos, 5_000_000_000);
    assert_eq!(timeouts.shutdown.nanos, 1_000_000_000);
}
