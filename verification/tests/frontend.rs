use faultline::builder::{
    format_lxc_image, parse_lxc_provision, parse_optional_u16, parse_u64, BuilderApp,
    BuilderOutcome, Runtime, Template,
};
use faultline::common::LOSS_ALGORITHM_GILBERT_ELLIOTT;
use faultline::comparison::compare;
use faultline::console::{lifecycle_label, parameter, App, Key, KeyEffect, Recording};
use faultline::container::Discovery;
use faultline::driver::{rules_impair, TimelineDriver};
use faultline::duration::Duration;
use faultline::execution::{ExecutionEnvironment, ExperimentExecution};
use faultline::experiment_spec::{
    DestinationSpec, ExperimentSpec, FaultEvent, FaultProfile, FaultSpec, NetworkProtocol,
    ResolutionStrategy, EXPERIMENT_VERSION,
};
use faultline::launcher::{
    check_output, initial_destination, manifest_path, resolved_path, resolved_sidecar_path,
    session_mode, session_target, stops_session, wants_default_builder, Launch, Mode,
};
use faultline::net::{IpAddr, IpNet};
use faultline::observed::{check_snapshot, ObservedRun, RunStep};
use faultline::plan::ResolvedExperiment;
use faultline::playback::{play_step, read_reply, PlayStep};
use faultline::protocol::{
    Request, RuleSpec, Timeline, TimelineEvent, TimelineKind, TIMELINE_VERSION,
};
use faultline::selection::DestinationResolver;
use faultline::traffic::TrafficStatus;
use faultline::workload_spec::{
    AttachSpec, DockerProvision, TrafficSpec, WorkloadLifecycle, WorkloadSpec,
};

fn type_text(app: &mut BuilderApp, text: &str) {
    for character in text.chars() {
        app.handle_key(Key::Char(character), false);
    }
}

#[test]
fn builder_edits_source_destination_and_produces_the_shared_manifest() {
    let mut app = BuilderApp::default();
    app.handle_key(Key::Right, false);
    assert_eq!(app.runtime, Runtime::Docker);
    app.selected = 2;
    type_text(&mut app, "web-01");
    app.selected = 5;
    type_text(&mut app, "api.example.test");
    let manifest = app.build().unwrap();
    assert_eq!(manifest.source.target_uri(), "docker://web-01/auto");
    assert_eq!(
        manifest.destination.as_ref().unwrap().selector,
        "api.example.test"
    );
    assert_eq!(manifest.profile.events[1].fault.drop_permyriad, 10_000);
    assert_eq!(manifest.validate(), Ok(()));
}

#[test]
fn optional_http_traffic_becomes_part_of_the_manifest() {
    let app = BuilderApp {
        destination: "api.example.test".into(),
        traffic_url: "https://api.example.test/health".into(),
        ..BuilderApp::default()
    };
    assert_eq!(
        app.build().unwrap().traffic,
        Some(TrafficSpec::Http {
            url: "https://api.example.test/health".into(),
            interval_ms: 1_000,
            timeout_ms: 2_000,
        })
    );
}

#[test]
fn builder_rejects_an_invalid_timeline_before_saving() {
    let app = BuilderApp {
        destination: "10.0.0.0/8".into(),
        outage_end_ms: "12000".into(),
        ..BuilderApp::default()
    };
    assert!(app.build().unwrap_err().contains("start < end <= duration"));
}

#[test]
fn builder_screen_exposes_the_complete_experiment_flow() {
    let app = BuilderApp::default();
    let rows = app.fields();
    assert_eq!(rows.len(), 13);
    assert_eq!(rows[0], ("Source runtime".to_owned(), "local".to_owned()));
    assert_eq!(rows[5].0, "Network destination");
    assert_eq!(app.template.label(), "brief outage");
    assert_eq!(app.marked_label(0), "▶ Source runtime        ");
    assert_eq!(app.marked_label(7), "  Port                  ");
    assert!(app.status.contains("Ctrl-S saves"));
}

#[test]
fn built_in_templates_create_distinct_fault_profiles() {
    let mut app = BuilderApp {
        destination: "10.0.0.0/8".into(),
        ..BuilderApp::default()
    };
    app.handle_key(Key::Function(2), false);
    let lossy = app.build().unwrap();
    assert_eq!(lossy.profile.events[1].fault.drop_permyriad, 2_500);
    app.handle_key(Key::Function(2), false);
    let slow = app.build().unwrap();
    assert_eq!(slow.profile.events[1].fault.drop_permyriad, 0);
    assert_eq!(slow.profile.events[1].fault.delay_ns, 100_000_000);
    assert_eq!(app.template, Template::SlowLink);
}

#[test]
fn local_builder_can_own_a_process_without_a_shell() {
    let app = BuilderApp {
        destination: "127.0.0.1/32".into(),
        image: "/usr/local/bin/service-under-test".into(),
        ..BuilderApp::default()
    };
    let WorkloadSpec::Local { process, .. } = app.build().unwrap().source else {
        panic!("expected local source");
    };
    assert_eq!(
        process.unwrap().program,
        "/usr/local/bin/service-under-test"
    );
}

#[test]
fn lxc_builder_can_describe_a_download_template() {
    let app = BuilderApp {
        runtime: Runtime::Lxc,
        workload: "generated-client".into(),
        image: "debian:trixie:amd64".into(),
        destination: "10.0.0.0/8".into(),
        ..BuilderApp::default()
    };
    let WorkloadSpec::Lxc { provision, .. } = app.build().unwrap().source else {
        panic!("expected LXC source");
    };
    let provision = provision.unwrap();
    assert_eq!(provision.distribution, "debian");
    assert_eq!(provision.release, "trixie");
    assert_eq!(provision.architecture, "amd64");
    assert!(provision.remove_on_exit);
    assert_eq!(format_lxc_image(&provision), "debian:trixie:amd64");
    assert!(parse_lxc_provision("debian:trixie").is_err());
    assert!(parse_lxc_provision("a:b:c:d").is_err());
}

#[test]
fn discovered_workloads_can_be_selected_without_typing_names() {
    let discovery = Discovery {
        local_interfaces: vec!["eth0".into(), "wlan0".into()],
        docker: vec!["api-1".into(), "api-2".into()],
        lxc: vec!["db-1".into()],
    };
    let mut app = BuilderApp::with_discovery(discovery);
    assert_eq!(app.interface, "eth0");
    app.handle_key(Key::Right, false);
    assert_eq!(app.runtime, Runtime::Docker);
    assert_eq!(app.workload, "api-1");
    app.selected = 2;
    app.handle_key(Key::Right, false);
    assert_eq!(app.workload, "api-2");
    app.handle_key(Key::Right, false);
    assert_eq!(app.workload, "api-1");
}

fn fault(drop_permyriad: u32, delay_ns: u64, seed: u32) -> FaultSpec {
    FaultSpec {
        drop_permyriad,
        delay_ns,
        seed,
        ..FaultSpec::default()
    }
}

fn event(at_ms: u64, fault: FaultSpec) -> FaultEvent {
    FaultEvent {
        at_ms,
        fault,
        faults: Vec::new(),
    }
}

fn preserved() -> ExperimentSpec {
    ExperimentSpec {
        version: EXPERIMENT_VERSION,
        name: "preserved".into(),
        source: WorkloadSpec::Docker {
            container: "web".into(),
            interface: "eth7".into(),
            lifecycle: WorkloadLifecycle::Existing,
            provision: Some(DockerProvision {
                image: "example/web:v2".into(),
                command: vec!["serve".into(), "--verbose".into()],
                environment: vec![("MODE".into(), "test".into())],
                remove_on_exit: false,
            }),
        },
        destination: Some(DestinationSpec {
            selector: "192.0.2.0/24".into(),
            protocol: NetworkProtocol::Tcp,
            port: Some(8443),
            resolution: ResolutionStrategy::Snapshot,
        }),
        selectors: Vec::new(),
        profile: FaultProfile {
            duration_ms: 9_000,
            events: vec![
                event(0, fault(0, 0, 17)),
                event(1_000, fault(2_500, 3_000_000, 23)),
                event(7_000, fault(0, 0, 29)),
            ],
        },
        traffic: Some(TrafficSpec::Command {
            program: "psql".into(),
            args: vec!["--command".into(), "select 1".into()],
            interval_ms: 333,
        }),
        extensions: vec![("future.feature".into(), "{\"enabled\":true}".into())],
    }
}

#[test]
fn visual_edit_round_trip_preserves_non_visual_manifest_fields() {
    let original = preserved();
    let mut app = BuilderApp::from_spec(original.clone(), Discovery::default()).unwrap();
    assert_eq!(app.build().unwrap(), original);

    app.name.push_str(" edited");
    let edited = app.build().unwrap();
    assert_eq!(edited.name, "preserved edited");
    assert_eq!(edited.traffic, original.traffic);
    assert_eq!(edited.extensions, original.extensions);
    assert_eq!(edited.profile.events[1].fault.delay_ns, 3_000_000);
    let WorkloadSpec::Docker {
        provision,
        lifecycle,
        ..
    } = edited.source
    else {
        panic!("expected Docker source");
    };
    assert_eq!(lifecycle, WorkloadLifecycle::Existing);
    assert_eq!(provision.unwrap().command, ["serve", "--verbose"]);
}

#[test]
fn visual_edit_rejects_a_timeline_it_cannot_represent() {
    let app = BuilderApp {
        destination: "10.0.0.0/8".into(),
        ..BuilderApp::default()
    };
    let mut spec = app.build().unwrap();
    spec.profile.events.push(event(8_000, FaultSpec::default()));
    let Err(error) = BuilderApp::from_spec(spec, Discovery::default()) else {
        panic!("unsupported timeline was accepted");
    };
    assert!(error.contains("exactly PASS"));
}

#[test]
fn numbers_of_the_form_are_read_exactly() {
    assert_eq!(parse_optional_u16("", "port"), Ok(None));
    assert_eq!(parse_optional_u16("443", "port"), Ok(Some(443)));
    assert_eq!(
        parse_optional_u16("70000", "port"),
        Err("port must be between 1 and 65535".to_owned())
    );
    assert_eq!(parse_u64("12", "duration"), Ok(12));
    assert!(parse_u64("soon", "duration").unwrap_err().contains("duration"));
    let app = BuilderApp {
        destination: "10.0.0.0/8".into(),
        loss_percent: "250".into(),
        ..BuilderApp::default()
    };
    assert!(app.build().is_err());
}

#[test]
fn keys_of_the_form_save_run_and_leave() {
    let mut app = BuilderApp::default();
    assert_eq!(
        app.handle_key(Key::Char('s'), true),
        Some(BuilderOutcome::Save)
    );
    assert_eq!(
        app.handle_key(Key::Char('e'), true),
        Some(BuilderOutcome::Execute)
    );
    assert_eq!(
        app.handle_key(Key::Escape, false),
        Some(BuilderOutcome::Cancel)
    );
    app.selected = 1;
    let length = app.name.len();
    assert_eq!(app.handle_key(Key::Backspace, false), None);
    assert_eq!(app.name.len(), length - 1);
    assert_eq!(app.handle_key(Key::Down, false), None);
    assert_eq!(app.selected, 2);
    app.set_status("saved".into());
    assert_eq!(app.status, "saved");
}

fn app() -> App {
    let mut app = App::new();
    app.rules = vec![
        concat_rule(500),
    ];
    app.stats = "{\"skb_loss_percent\":5.0,\"segment_loss_percent\":4.8,\"matched\":100,\
        \"dropped\":5,\"gso_skbs\":12,\"duplicated_delta\":3,\"reordered_delta\":2,\
        \"delayed_delta\":8,\"pacing_dropped_delta\":1}"
        .to_owned();
    app.diagnostics = "{\"destination_miss_delta\":9,\"source_miss_delta\":4,\
        \"protocol_miss_delta\":3,\"port_miss_delta\":2,\"malformed_delta\":1}"
        .to_owned();
    app.status = "applied #2".to_owned();
    app
}

fn concat_rule(loss: u32) -> String {
    format!(
        "{{\"id\":0,\"source\":null,\"destination\":\"10.20.0.0/16\",\"drop_permyriad\":{loss},\
         \"duplicate_permyriad\":0,\"reorder_permyriad\":0,\"delay_ns\":20000000,\
         \"jitter_ns\":5000000,\"bandwidth_bps\":10000000}}"
    )
}

fn field(json: &str, key: &str) -> Option<u64> {
    serde_json::from_str::<serde_json::Value>(json)
        .unwrap()
        .get(key)
        .and_then(serde_json::Value::as_u64)
}

fn rule(drop_permyriad: u32, delay_ns: u64, bandwidth_bps: u64) -> RuleSpec {
    RuleSpec {
        id: 0,
        source: None,
        destination: IpNet::parse("10.20.0.0/16").unwrap(),
        protocol: 0,
        loss_algorithm: 0,
        destination_port: 0,
        drop_permyriad,
        ge_enter_permyriad: 0,
        ge_recover_permyriad: 0,
        ge_good_loss_permyriad: 0,
        ge_bad_loss_permyriad: 0,
        ge_idle_reset_secs: 0,
        duplicate_permyriad: 0,
        reorder_permyriad: 0,
        delay_ns,
        jitter_ns: 0,
        bandwidth_bps,
        seed: 7,
    }
}

#[test]
fn knob_adjustment_changes_the_wire_rule_value() {
    let mut app = app();
    assert!(app.adjust(1, false));
    assert_eq!(field(&app.rules[0], "drop_permyriad"), Some(525));
    assert!(app.adjust(-1, true));
    assert_eq!(field(&app.rules[0], "drop_permyriad"), Some(275));
    assert_eq!(field(&app.rules[0], "delay_ns"), Some(20_000_000));
}

#[test]
fn knobs_stop_at_their_ends() {
    let mut app = app();
    app.rules = vec![concat_rule(9_990)];
    assert!(app.adjust(1, false));
    assert_eq!(field(&app.rules[0], "drop_permyriad"), Some(10_000));
    assert!(!app.adjust(1, false));
    app.rules = vec![concat_rule(20)];
    assert!(app.adjust(-1, false));
    assert_eq!(field(&app.rules[0], "drop_permyriad"), Some(0));
    assert!(!app.adjust(-1, true));
    app.rules = vec!["7".to_owned()];
    assert!(!app.adjust(1, false));
    assert_eq!(app.rules, vec!["7".to_owned()]);
    assert_eq!(parameter(5).label, "BANDWIDTH");
    assert_eq!(parameter(3).maximum, 1_000_000_000);
}

fn launch() -> Launch {
    Launch {
        target: None,
        experiment: None,
        new_experiment: None,
        edit_experiment: None,
        resolved_output: None,
        socket: None,
        profile: None,
        replay: None,
        record: None,
        set_loss: false,
        snapshot_after_ms: None,
    }
}

#[test]
fn experiment_is_a_top_level_tui_flow_and_can_emit_its_effective_plan() {
    let named = Launch {
        experiment: Some("experiment.yaml".into()),
        resolved_output: Some("effective.json".into()),
        ..launch()
    };
    assert_eq!(manifest_path(&named), Some("experiment.yaml".to_owned()));
    assert_eq!(resolved_path(&named), Some("effective.json".to_owned()));
    assert_eq!(check_output(&named, true), Ok(()));
    let loose = Launch {
        resolved_output: Some("effective.json".into()),
        ..launch()
    };
    assert!(check_output(&loose, false).is_err());
    let edited = Launch {
        edit_experiment: Some("experiment.yaml".into()),
        ..launch()
    };
    assert_eq!(
        resolved_path(&edited),
        Some("experiment.yaml.resolved.json".to_owned())
    );
}

#[test]
fn no_argument_invocation_is_reserved_for_the_visual_builder() {
    assert!(wants_default_builder(&launch()));
    assert_eq!(manifest_path(&launch()), Some("experiment.yaml".to_owned()));
    let direct = Launch {
        target: Some("local://eth0".into()),
        ..launch()
    };
    assert!(!wants_default_builder(&direct));
    assert_eq!(manifest_path(&direct), None);
}

#[test]
fn effective_plan_uses_a_deterministic_manifest_sidecar() {
    assert_eq!(
        resolved_sidecar_path("experiments/api.yaml"),
        "experiments/api.yaml.resolved.json"
    );
}

#[test]
fn sessions_do_what_the_command_line_says() {
    assert_eq!(session_mode(true, true, false, true), Mode::Observe);
    assert_eq!(session_mode(false, true, false, true), Mode::Play);
    assert_eq!(session_mode(false, false, true, true), Mode::SetLoss);
    assert_eq!(session_mode(false, false, false, true), Mode::Snapshot);
    assert_eq!(session_mode(false, false, false, false), Mode::Interactive);
    assert!(stops_session(Mode::Play, true));
    assert!(!stops_session(Mode::SetLoss, true));
    assert!(!stops_session(Mode::Play, false));
    let played = Some(Timeline {
        target: Some("local://eth9".into()),
        ..two_steps()
    });
    assert_eq!(session_target(&None, &played), Some("local://eth9".to_owned()));
    let named = Some("local://eth0".to_owned());
    assert_eq!(session_target(&named, &played), named);
}

#[test]
fn synthesizer_screen_renders_controls_meters_and_ack() {
    let app = app();
    assert!(app
        .header_text(120, "/tmp/faultline-engine.sock")
        .contains("rule 1/1  * → 10.20.0.0/16  │  /tmp/faultline-engine.sock"));
    assert_eq!(app.packets_line(), "matched      100  dropped        5");
    assert_eq!(app.aggregates_line(), "GSO skb         12");
    assert_eq!(app.copies_line(), "DUP     3  REORDER     2");
    assert_eq!(app.delays_line(), "DELAY     8  PACE DROP     1");
    let (first, second) = app.misses_lines();
    assert_eq!(first, "MISS DST     9  SRC     4");
    assert_eq!(second, "MISS PROTO   3 PORT     2 BAD   1");
    assert_eq!(app.log_lines(), vec!["applied #2".to_owned()]);
}

#[test]
fn state_ack_error_and_stats_events_update_the_screen_model() {
    let mut app = App::new();
    let state = format!(
        "{{\"type\":\"state\",\"id\":1,\"state\":{{\"rules\":[{}]}}}}",
        concat_rule(500)
    );
    app.handle_message(&state, Some(vec![rule(500, 20_000_000, 10_000_000)]), 0);
    assert_eq!(app.rules.len(), 1);
    assert_eq!(field(&app.rules[0], "drop_permyriad"), Some(500));
    assert_eq!(app.status, "state #1");

    app.handle_message(
        "{\"type\":\"stats\",\"rule_id\":0,\"skb_loss_percent\":12.5,\"matched\":80,\
         \"dropped\":10,\"gso_skbs\":7}",
        None,
        0,
    );
    assert_eq!(field(&app.stats, "matched"), Some(80));
    assert!(app.packets_line().contains("80"));

    app.handle_message(
        "{\"type\":\"diagnostics\",\"seen\":100,\"destination_miss_delta\":7,\
         \"source_miss_delta\":2,\"protocol_miss_delta\":1,\"port_miss_delta\":3,\
         \"malformed_delta\":4}",
        None,
        0,
    );
    assert_eq!(field(&app.diagnostics, "destination_miss_delta"), Some(7));
    assert_eq!(app.misses_lines().0, "MISS DST     7  SRC     2");

    app.handle_message("{\"type\":\"error\",\"id\":9,\"message\":\"bad patch\"}", None, 0);
    assert_eq!(app.status, "ERROR: bad patch");
    assert!(app.events[0].contains("bad patch"));
}

#[test]
fn experiment_lifecycle_and_generated_traffic_are_visible() {
    let mut app = app();
    app.phase = "Impair".to_owned();
    app.traffic = TrafficStatus {
        attempts: 12,
        succeeded: 9,
        failed: 3,
        last_error: None,
    };
    assert!(app
        .header_text(150, "")
        .contains("✓ Provision → ✓ Connect → ● Impair → Observe"));
    assert!(app.header_text(80, "").contains("[Impair]"));
    assert_eq!(app.traffic_line(), "TRAFFIC ok     9 fail     3 total    12");
    assert_eq!(
        lifecycle_label("Observe"),
        "✓ Provision → ✓ Connect → ✓ Impair → ● Observe"
    );
}

#[test]
fn impairment_phase_detects_every_supported_fault_action() {
    let mut rules = vec![rule(0, 0, 0)];
    assert!(!rules_impair(&rules));
    rules[0].delay_ns = 1;
    assert!(rules_impair(&rules));
}

#[test]
fn every_fault_alone_counts_as_an_impairment() {
    let quiet = rule(0, 0, 0);
    let faults = [
        RuleSpec { drop_permyriad: 1, ..quiet },
        RuleSpec { duplicate_permyriad: 1, ..quiet },
        RuleSpec { reorder_permyriad: 1, ..quiet },
        RuleSpec { delay_ns: 1, ..quiet },
        RuleSpec { jitter_ns: 1, ..quiet },
        RuleSpec { bandwidth_bps: 1, ..quiet },
        RuleSpec {
            loss_algorithm: LOSS_ALGORITHM_GILBERT_ELLIOTT,
            ge_enter_permyriad: 100,
            ge_recover_permyriad: 2_500,
            ge_bad_loss_permyriad: 10_000,
            ..quiet
        },
        RuleSpec {
            loss_algorithm: LOSS_ALGORITHM_GILBERT_ELLIOTT,
            ge_good_loss_permyriad: 1,
            ..quiet
        },
    ];
    assert!(!rules_impair(&vec![quiet]));
    for fault in faults {
        assert!(rules_impair(&vec![quiet, fault]));
    }
    let spare = RuleSpec { ge_enter_permyriad: 100, ge_bad_loss_permyriad: 10_000, ..quiet };
    assert!(!rules_impair(&vec![spare]));
}

#[test]
fn burst_loss_alone_brings_a_run_into_the_impair_phase() {
    let burst = RuleSpec {
        loss_algorithm: LOSS_ALGORITHM_GILBERT_ELLIOTT,
        ge_enter_permyriad: 100,
        ge_recover_permyriad: 2_500,
        ge_bad_loss_permyriad: 10_000,
        ..rule(0, 0, 0)
    };
    let mut timeline = two_steps();
    timeline.events[0].rules = vec![burst];
    let mut run = ObservedRun::new(&timeline, None, None);
    let event = run.next_event(Duration::from_millis(0)).unwrap();
    run.sent(&event, Duration::from_millis(0), Duration::from_millis(0));
    assert_eq!(run.app().phase, "Impair");
}

#[test]
fn selected_rule_and_parameter_survive_compact_resize_rendering() {
    let mut app = app();
    app.rules.push(
        concat_rule(2_500).replace("10.20.0.0/16", "2001:db8::/64"),
    );
    app.selected_rule = 1;
    app.selected_parameter = 5;
    for width in [80, 56] {
        assert!(app.header_text(width, "").contains("rule 2/2  * → 2001:db8::/64"));
    }
}

fn two_steps() -> Timeline {
    Timeline {
        version: TIMELINE_VERSION,
        kind: TimelineKind::Profile,
        name: None,
        target: None,
        duration_ms: 0,
        events: vec![
            TimelineEvent {
                at_ms: 0,
                rules: vec![rule(500, 20_000_000, 10_000_000)],
            },
            TimelineEvent {
                at_ms: 0,
                rules: vec![rule(10_000, 20_000_000, 10_000_000)],
            },
        ],
    }
}

#[test]
fn headless_player_sends_each_atomic_ruleset_in_timeline_order() {
    let timeline = two_steps();
    let mut driver = TimelineDriver::new(&timeline);
    let mut responses = vec![
        "{\"type\":\"applied\",\"id\":1,\"state\":{\"rules\":[]}}",
        "{\"type\":\"stats\"}",
        "{\"type\":\"applied\",\"id\":2,\"state\":{\"rules\":[]}}",
    ]
    .into_iter();
    let mut sent = Vec::new();
    loop {
        match play_step(&mut driver, Duration::from_millis(0)) {
            PlayStep::Apply(event) => {
                loop {
                    let reply = read_reply(responses.next().unwrap()).unwrap();
                    if reply.answers(event.id) {
                        reply.event_outcome(event.index).unwrap();
                        break;
                    }
                }
                driver.acknowledge(event.id).unwrap();
                sent.push((event.id, event.rules));
            }
            PlayStep::Wait => panic!("both events are due"),
            PlayStep::Finished => break,
        }
    }
    assert_eq!(sent.len(), 2);
    assert_eq!(sent[1].0, 2);
    assert_eq!(sent[1].1[0].drop_permyriad, 10_000);
}

#[test]
fn recorder_keeps_only_acknowledged_distinct_rule_states() {
    let mut app = App::new();
    app.start_recording("unused.json".into(), "local://eth0".into());
    let mut now = 0;
    for (kind, loss) in [("state", 500), ("applied", 500), ("applied", 750)] {
        let line = format!(
            "{{\"type\":\"{kind}\",\"id\":1,\"state\":{{\"rules\":[{}]}}}}",
            concat_rule(loss)
        );
        app.handle_message(&line, Some(vec![rule(loss, 0, 0)]), now);
        now += 5;
    }
    let timeline = &app.recording.as_ref().unwrap().timeline;
    assert_eq!(timeline.events.len(), 2);
    assert_eq!(timeline.events[0].at_ms, 0);
    assert_eq!(timeline.events[1].rules[0].drop_permyriad, 750);
    assert_eq!(timeline.events[1].at_ms, 10);
    let finished = app.finish_recording(20).unwrap().unwrap();
    assert_eq!(finished.timeline.duration_ms, 20);
    assert_eq!(finished.timeline.kind, TimelineKind::Replay);
    assert!(app.recording.is_none());
    assert_eq!(app.finish_recording(20), Ok(None));
    assert!(Recording::new("a".into(), "b".into()).finish(5).is_err());
}

#[test]
fn keys_of_the_screen_ask_for_requests() {
    let mut app = app();
    assert_eq!(app.handle_key(Key::Escape, false), KeyEffect::Quit);
    assert_eq!(app.handle_key(Key::Char('x'), false), KeyEffect::Stop);
    assert_eq!(app.handle_key(Key::Char('r'), false), KeyEffect::GetState);
    assert_eq!(app.handle_key(Key::Right, true), KeyEffect::ReplaceRules);
    assert_eq!(field(&app.rules[0], "drop_permyriad"), Some(750));
    assert_eq!(app.handle_key(Key::Down, false), KeyEffect::Nothing);
    assert_eq!(app.selected_parameter, 1);
    let rules = vec![rule(750, 0, 0)];
    match app.request(KeyEffect::ReplaceRules, rules.clone()) {
        Some(Request::ReplaceRules { id, rules: sent }) => {
            assert_eq!(id, 1);
            assert_eq!(sent, rules);
        }
        _ => panic!("expected replace_rules"),
    }
    app.sent(KeyEffect::ReplaceRules, 1);
    assert_eq!(app.status, "replace_rules #1 pending");
    assert_eq!(app.next_id, 2);
    for turn in 0..20 {
        app.handle_message(&format!("note {turn}"), None, 0);
    }
    assert_eq!(app.events.len(), 8);
    assert!(app.events[0].contains("note 19"));
}

#[test]
fn observed_timeline_waits_for_each_applied_response() {
    let timeline = Timeline {
        duration_ms: 30,
        events: vec![
            TimelineEvent {
                at_ms: 0,
                rules: vec![rule(0, 10_000_000, 1_000_000)],
            },
            TimelineEvent {
                at_ms: 0,
                rules: vec![rule(0, 20_000_000, 2_000_000)],
            },
        ],
        ..two_steps()
    };
    let timeout = Duration::from_secs(5);
    let at = Duration::from_millis;
    let mut run = ObservedRun::new(&timeline, None, Some(30));
    let first = run.next_event(at(0)).unwrap();
    run.sent(&first, at(0), at(100));
    assert_eq!(run.app().phase, "Impair");
    assert_eq!(run.app().status, "applying event 0 at 0ms");
    assert!(run.next_event(at(10)).is_none());
    assert_eq!(run.step(at(40), at(140), timeout, false), RunStep::Continue);
    let applied = "{\"type\":\"applied\",\"id\":1,\"state\":{\"rules\":[]}}";
    assert_eq!(run.receive(applied, Some(Vec::new()), at(11)), Ok(None));
    let stats = "{\"type\":\"stats\",\"rule_id\":0,\"matched\":4,\"dropped\":1}";
    assert_eq!(run.receive(stats, None, at(12)), Ok(None));
    let second = run.next_event(at(13)).unwrap();
    run.sent(&second, at(13), at(113));
    let applied = "{\"type\":\"applied\",\"id\":2,\"state\":{\"rules\":[]}}";
    assert_eq!(run.receive(applied, Some(Vec::new()), at(14)), Ok(None));
    assert_eq!((first.id, second.id), (1, 2));
    assert_eq!(run.step(at(29), at(129), timeout, false), RunStep::Continue);
    assert_eq!(run.step(at(30), at(130), timeout, false), RunStep::Finished);
    let (execution, _) = run.finish(1_000, 1_030);
    assert_eq!(execution.applied_events.len(), 2);
    assert_eq!(execution.applied_events[0].event_index, 0);
    assert_eq!(execution.applied_events[0].applied_at_ms, 11);
    assert_eq!(execution.rule_observations.len(), 1);
    assert_eq!(execution.rule_observations[0].active_event_index, Some(0));
    assert!(execution.rule_observations[0].interval_may_span_rule_change);
    let configured = execution.rule_observations[0].configured_rule.as_ref().unwrap();
    assert_eq!(configured.delay_ns, 10_000_000);
    assert_eq!(configured.bandwidth_bps, 1_000_000);
    assert_eq!(execution.final_rule_stats.len(), 1);
    assert_eq!(execution.final_rule_stats[0].0, 0);
    assert_eq!(field(&execution.final_rule_stats[0].1, "matched"), Some(4));
    assert_eq!(execution.completed_at_unix_ms, 1_030);
}

#[test]
fn observed_timeline_reports_a_missing_acknowledgement() {
    let timeline = Timeline {
        duration_ms: 1,
        events: vec![TimelineEvent {
            at_ms: 0,
            rules: Vec::new(),
        }],
        ..two_steps()
    };
    let timeout = Duration::from_millis(20);
    let mut run = ObservedRun::new(&timeline, None, Some(1));
    let event = run.next_event(Duration::from_millis(0)).unwrap();
    run.sent(&event, Duration::from_millis(0), Duration::from_millis(0));
    assert_eq!(
        run.step(Duration::from_millis(19), Duration::from_millis(19), timeout, false),
        RunStep::Continue
    );
    assert_eq!(
        run.step(Duration::from_millis(20), Duration::from_millis(20), timeout, true),
        RunStep::TimedOut
    );
}

#[test]
fn failed_events_and_strange_answers_end_an_observed_run() {
    let timeline = two_steps();
    let zero = Duration::from_millis(0);
    let attach = AttachSpec::Local { interface: "eth0".into(), process: None };
    let traffic = TrafficSpec::Command {
        program: "probe".into(),
        args: Vec::new(),
        interval_ms: 100,
    };
    let busy = TrafficStatus { attempts: 1, succeeded: 1, failed: 0, last_error: None };
    let mut run = ObservedRun::new(&timeline, Some((&attach, &traffic)), None);
    let event = run.next_event(zero).unwrap();
    run.sent(&event, zero, zero);
    assert_eq!(
        run.receive("{\"type\":\"error\",\"message\":\"no such rule\"}", None, zero),
        Err("timeline event failed: no such rule".to_owned())
    );
    assert_eq!(
        run.receive("{\"type\":\"error\"}", None, zero),
        Err("timeline event failed: unknown agent error".to_owned())
    );
    let answer = "{\"type\":\"applied\",\"id\":1,\"state\":{\"rules\":[]}}";
    run.show_traffic(Some(busy.clone()));
    assert_eq!(run.app().traffic, TrafficStatus::default());
    let generator = run.receive(answer, Some(Vec::new()), zero).unwrap().unwrap();
    assert_eq!((generator.invocation.program.as_str(), generator.interval_ms), ("probe", 100));
    run.show_traffic(None);
    assert_eq!(run.app().traffic, TrafficStatus::default());
    run.show_traffic(Some(busy.clone()));
    assert_eq!(run.app().traffic, busy);
    let event = run.next_event(zero).unwrap();
    run.sent(&event, zero, zero);
    let strange = "{\"type\":\"applied\",\"id\":7,\"state\":{\"rules\":[]}}";
    assert!(run.receive(strange, Some(Vec::new()), zero).is_err());
    assert_eq!(check_snapshot(Some(1)), Ok(()));
    assert_eq!(
        check_snapshot(Some(0)),
        Err("--snapshot-after-ms must be greater than zero".to_owned())
    );
}

struct Resolver;

impl DestinationResolver for Resolver {
    fn resolve(&self, _: &str) -> Result<Vec<IpAddr>, String> {
        Ok(vec![IpAddr::parse("192.0.2.1").unwrap()])
    }
}

fn plan() -> ResolvedExperiment {
    let attach = AttachSpec::Docker {
        container: "web".into(),
        interface: "eth7".into(),
        lifecycle: WorkloadLifecycle::Existing,
        provision: None,
    };
    let mut spec = preserved();
    if let WorkloadSpec::Docker { provision, .. } = &mut spec.source {
        *provision = None;
    }
    spec.compile(&Resolver, attach).unwrap()
}

fn environment(kernel: &str) -> ExecutionEnvironment {
    ExecutionEnvironment {
        captured_at_unix_ms: 1,
        target: "docker://web/eth7".into(),
        interface: "eth7".into(),
        faultline_version: "1.0".into(),
        kernel_release: Some(kernel.into()),
        offloads: vec![("tso".into(), true)],
        qdiscs: None,
        diagnostics: Vec::new(),
    }
}

#[test]
fn runs_are_compared_by_conditions_environment_and_effects() {
    let mut base = plan();
    let mut candidate = base.clone();
    assert_eq!(initial_destination(&base), Ok("192.0.2.0/24".to_owned()));
    base.environment = Some(environment("6.1"));
    base.effective_environment = Some(environment("6.2"));
    candidate.environment = Some(environment("6.1"));
    candidate.timeline.duration_ms += 1;
    candidate.execution_error = Some("agent went away".into());
    base.execution = Some(ExperimentExecution {
        started_at_unix_ms: 0,
        completed_at_unix_ms: 1,
        applied_events: Vec::new(),
        rule_observations: Vec::new(),
        selection_diagnostics: Vec::new(),
        final_rule_stats: vec![(0, "{}".into())],
        final_diagnostics: Some("[]".into()),
    });
    let report = compare(&base, &candidate);
    assert!(!report.conditions_equal);
    assert!(report.conditions.attach_equal);
    assert!(report.conditions.selectors_equal);
    assert!(!report.conditions.timeline_equal);
    assert!(!report.environment.kernel_equal);
    assert!(report.environment.offloads_equal);
    assert!(report.environment.qdiscs_equal);
    assert_eq!(report.environment.base, base.effective_environment.as_ref());
    assert_eq!(report.effects.base_execution_error, None);
    assert_eq!(
        report.effects.candidate_execution_error.map(String::as_str),
        Some("agent went away")
    );
    assert_eq!(report.effects.base_final_rule_stats.unwrap().len(), 1);
    assert_eq!(report.effects.candidate_final_rule_stats, None);
    assert!(compare(&base, &base).conditions_equal);
    base.selectors.clear();
    assert!(initial_destination(&base).is_err());
}
