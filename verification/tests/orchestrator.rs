use faultline::common::FAULTLINE_AGENT_APPLICATION;
use faultline::container::{
    asks_again, cleanup_decision, discover, lifecycle_decision, resolve_attach,
    resolve_container_interface, select_interface, tool_destination, Cleanup, Runtime,
    INTERFACE_ATTEMPTS,
};
use faultline::driver::{
    check_loaded, rules_impair, ExperimentDriver, Generator, TimelineDriver,
};
use faultline::duration::Duration;
use faultline::environment::{
    capture_environment, captured, kernel_command, offloads_command, parse_offloads,
    prepare_experiment, qdiscs_command, Capture,
};
use faultline::experiment_spec::{
    DestinationSpec, ExperimentSpec, FaultEvent, FaultProfile, FaultSpec, NetworkProtocol,
    ResolutionStrategy, EXPERIMENT_VERSION,
};
use faultline::invocation::{ExitReport, Invocation, ProcessOutput};
use faultline::net::{IpAddr, IpNet};
use faultline::playback::{
    change_loss, closed_message, loss_outcome, loss_rate, play_step, read_reply, PlayStep,
};
use faultline::preparation::{Action, Event, Ownership, Preparation, Tooling};
use faultline::protocol::{
    RuleSpec, Timeline, TimelineEvent, TimelineKind, TIMELINE_VERSION,
};
use faultline::rule::Percent;
use faultline::selection::DestinationResolver;
use faultline::session::{
    agent_arguments, agent_command, choose_target, container_target, discover_targets, reap,
    resolve_explicit_target, resolve_target, running_socket, session_label,
    validate_running_container, ChildState, Direction, Reaping, SessionOptions,
};
use faultline::traffic::{
    attempt_step, invocation, nap, rest_after, AttemptStep, TrafficStatus,
};
use faultline::workload_spec::{
    AttachSpec, DockerProvision, LocalProcess, LxcProvision, TrafficSpec, WorkloadLifecycle,
    WorkloadSpec,
};

fn strings(values: &[&str]) -> Vec<String> {
    values.iter().map(|value| (*value).to_owned()).collect()
}

fn nothing_found() -> Result<Vec<String>, String> {
    Err("nobody looked".to_owned())
}

fn timeline() -> Timeline {
    Timeline {
        version: TIMELINE_VERSION,
        kind: TimelineKind::Profile,
        name: None,
        target: None,
        duration_ms: 20,
        events: vec![
            TimelineEvent {
                at_ms: 0,
                rules: Vec::new(),
            },
            TimelineEvent {
                at_ms: 5,
                rules: Vec::new(),
            },
        ],
    }
}

fn rule(id: u32) -> RuleSpec {
    RuleSpec {
        id,
        source: None,
        destination: IpNet::parse("10.0.0.0/8").unwrap(),
        protocol: 0,
        loss_algorithm: 0,
        destination_port: 0,
        drop_permyriad: 0,
        ge_enter_permyriad: 0,
        ge_recover_permyriad: 0,
        ge_good_loss_permyriad: 0,
        ge_bad_loss_permyriad: 0,
        ge_idle_reset_secs: 0,
        duplicate_permyriad: 0,
        reorder_permyriad: 0,
        delay_ns: 0,
        jitter_ns: 0,
        bandwidth_bps: 0,
        seed: 1,
    }
}

struct Resolver;

impl DestinationResolver for Resolver {
    fn resolve(&self, _: &str) -> Result<Vec<IpAddr>, String> {
        Ok(vec![IpAddr::parse("192.0.2.1").unwrap()])
    }
}

#[test]
fn local_experiment_becomes_a_concrete_owned_plan_without_a_frontend() {
    let spec = ExperimentSpec {
        version: EXPERIMENT_VERSION,
        name: "library consumer".into(),
        source: WorkloadSpec::Local {
            interface: "lo".into(),
            process: None,
        },
        destination: Some(DestinationSpec {
            selector: "example.test".into(),
            protocol: NetworkProtocol::Tcp,
            port: Some(443),
            resolution: ResolutionStrategy::Snapshot,
        }),
        selectors: Vec::new(),
        profile: FaultProfile {
            duration_ms: 1,
            events: vec![FaultEvent {
                at_ms: 0,
                fault: FaultSpec::default(),
                faults: Vec::new(),
            }],
        },
        traffic: None,
        extensions: Vec::new(),
    };
    spec.validate().unwrap();
    let (_, action) = Preparation::new(
        spec.source.clone(),
        Tooling {
            agent: FAULTLINE_AGENT_APPLICATION.to_owned(),
            engine: None,
        },
    );
    let Action::Own(owned) = action else {
        panic!("a local source without a process is there already");
    };
    let mut prepared = prepare_experiment(&spec, &Resolver, owned, &nothing_found()).unwrap();
    let environment = capture_environment(
        &prepared.plan().attach,
        7,
        "1.0",
        Ok("6.1.0\n".to_owned()),
        Ok("tcp-segmentation-offload: on\n".to_owned()),
        Ok("[{\"kind\": \"noqueue\"}]".to_owned()),
    );
    prepared.record_environment(environment);
    assert_eq!(prepared.plan().attach.target_uri(), "local://lo");
    assert_eq!(
        prepared.plan().timeline.target.as_deref(),
        Some("local://lo")
    );
    let environment = prepared.plan().environment.as_ref().unwrap();
    assert_eq!(environment.target, "local://lo");
    assert_eq!(environment.interface, "lo");
    assert_eq!(environment.kernel_release.as_deref(), Some("6.1.0"));
    assert_eq!(
        environment.qdiscs.as_deref(),
        Some("[{\"kind\":\"noqueue\"}]")
    );
    assert!(environment.diagnostics.is_empty());
    let (plan, owned) = prepared.into_parts();
    assert_eq!(plan.validate_for_rerun(), Ok(()));
    assert_eq!(owned, Ownership::Nothing);
}

#[test]
fn ethtool_features_are_recorded_as_boolean_conditions() {
    let parsed = parse_offloads(
        "Features for eth0:\ntcp-segmentation-offload: on\ngeneric-receive-offload: off [fixed]\n",
    );
    assert_eq!(
        parsed,
        vec![
            ("generic-receive-offload".to_owned(), false),
            ("tcp-segmentation-offload".to_owned(), true),
        ]
    );
}

#[test]
fn the_last_word_on_an_offload_counts() {
    assert_eq!(
        parse_offloads("b: on\na: off\nb: off\nc: maybe\nd:\n"),
        vec![("a".to_owned(), false), ("b".to_owned(), false)]
    );
}

#[test]
fn what_could_not_be_found_out_is_explained() {
    let attach = AttachSpec::Lxc {
        container: "db".to_owned(),
        interface: "eth3".to_owned(),
        lifecycle: WorkloadLifecycle::Existing,
        provision: None,
    };
    assert_eq!(
        kernel_command(&attach).args,
        ["-n", "db", "--", "uname", "-r"]
    );
    assert_eq!(
        offloads_command(&attach).args,
        ["-n", "db", "--", "ethtool", "-k", "eth3"]
    );
    assert_eq!(
        qdiscs_command(&attach).args,
        ["-n", "db", "--", "tc", "-j", "qdisc", "show", "dev", "eth3"]
    );
    let environment = capture_environment(
        &attach,
        1,
        "1.0",
        captured("uname", Capture::Unavailable("no such file".to_owned())),
        captured(
            "ethtool",
            Capture::Ran(ProcessOutput {
                exit: ExitReport {
                    success: false,
                    status: "exit status: 1".to_owned(),
                },
                stdout: String::new(),
                stderr: " not permitted\n".to_owned(),
            }),
        ),
        Ok("not json".to_owned()),
    );
    assert!(environment.kernel_release.is_none());
    assert!(environment.offloads.is_empty());
    assert!(environment.qdiscs.is_none());
    assert_eq!(
        environment.diagnostics[0],
        "kernel: could not run uname: no such file"
    );
    assert_eq!(
        environment.diagnostics[1],
        "offloads: ethtool exited with exit status: 1: not permitted"
    );
    assert!(environment.diagnostics[2].starts_with("qdiscs: invalid tc JSON: "));
    assert_eq!(
        captured("tc", Capture::Unreadable("byte 3".to_owned())).unwrap_err(),
        "tc returned non-UTF-8: byte 3"
    );
}

#[test]
fn driver_serializes_events_on_acknowledgements() {
    let timeline = timeline();
    let mut driver = TimelineDriver::new(&timeline);
    let first = driver.next_at(Duration::from_millis(0)).unwrap();
    assert!(driver.next_at(Duration::from_secs(1)).is_none());
    assert_eq!(driver.acknowledge(first.id).unwrap(), Some(0));
    let second = driver.next_at(Duration::from_millis(5)).unwrap();
    assert_eq!(driver.acknowledge(second.id).unwrap(), Some(1));
    assert!(driver.complete(Duration::from_millis(20)));
}

#[test]
fn driver_rejects_an_out_of_order_acknowledgement() {
    let timeline = timeline();
    let mut driver = TimelineDriver::new(&timeline);
    driver.next_at(Duration::from_millis(0)).unwrap();
    assert!(driver
        .acknowledge(2)
        .unwrap_err()
        .contains("pending event 1"));
}

fn probe() -> (AttachSpec, TrafficSpec) {
    let attach = AttachSpec::Docker {
        container: "web".into(),
        interface: "eth0".into(),
        lifecycle: WorkloadLifecycle::Existing,
        provision: None,
    };
    let traffic = TrafficSpec::Command {
        program: "probe".into(),
        args: strings(&["once"]),
        interval_ms: 250,
    };
    (attach, traffic)
}

fn busy() -> TrafficStatus {
    TrafficStatus { attempts: 3, succeeded: 2, failed: 1, last_error: None }
}

#[test]
fn traffic_starts_with_the_first_acknowledgement() {
    let timeline = timeline();
    let (attach, traffic) = probe();
    let mut driver = ExperimentDriver::new(&timeline, Some((&attach, &traffic)));
    assert_eq!(driver.acknowledge(1).unwrap().traffic, None);
    driver.next_at(Duration::from_millis(0)).unwrap();
    assert!(driver.acknowledge(9).is_err());
    assert_eq!(driver.traffic_status(Some(busy())), TrafficStatus::default());
    let first = driver.acknowledge(1).unwrap();
    assert_eq!(first.event, Some(0));
    assert_eq!(
        first.traffic,
        Some(Generator { invocation: invocation(&attach, &traffic), interval_ms: 250 })
    );
    assert_eq!(driver.traffic_status(None), TrafficStatus::default());
    assert_eq!(driver.traffic_status(Some(busy())), busy());
    assert!(driver.next_at(Duration::from_millis(4)).is_none());
    assert!(!driver.complete(Duration::from_millis(20)));
    driver.next_at(Duration::from_millis(5)).unwrap();
    let second = driver.acknowledge(2).unwrap();
    assert_eq!((second.event, second.traffic), (Some(1), None));
    assert_eq!(driver.traffic_status(Some(busy())), busy());
    assert!(!driver.complete(Duration::from_millis(19)));
    assert!(driver.complete(Duration::from_millis(20)));
}

#[test]
fn traffic_that_is_not_planned_or_not_valid_never_starts() {
    let timeline = timeline();
    let mut driver = ExperimentDriver::new(&timeline, None);
    driver.next_at(Duration::from_millis(0)).unwrap();
    let first = driver.acknowledge(1).unwrap();
    assert_eq!((first.event, first.traffic), (Some(0), None));
    assert_eq!(driver.traffic_status(None), TrafficStatus::default());

    let (attach, _) = probe();
    let traffic =
        TrafficSpec::Command { program: " ".into(), args: Vec::new(), interval_ms: 250 };
    let mut driver = ExperimentDriver::new(&timeline, Some((&attach, &traffic)));
    driver.next_at(Duration::from_millis(0)).unwrap();
    assert_eq!(
        driver.acknowledge(1),
        Err("traffic command program must not be empty".to_owned())
    );
    assert_eq!(driver.traffic_status(Some(busy())), TrafficStatus::default());
    assert_eq!(driver.acknowledge(1).unwrap().event, None);
}

#[test]
fn players_wait_for_the_answer_to_each_event() {
    let timeline = timeline();
    let mut driver = TimelineDriver::new(&timeline);
    let PlayStep::Apply(event) = play_step(&mut driver, Duration::from_millis(0)) else {
        panic!("the first event is due");
    };
    assert_eq!(
        play_step(&mut driver, Duration::from_millis(9)),
        PlayStep::Wait
    );
    let stats = read_reply("{\"type\": \"stats\"}").unwrap();
    assert!(!stats.answers(event.id));
    let failed =
        read_reply("{\"type\":\"error\",\"id\":1,\"message\":\"bad rules\"}").unwrap();
    assert!(failed.answers(event.id));
    assert_eq!(
        failed.event_outcome(event.index).unwrap_err(),
        "timeline event 0 failed: bad rules"
    );
    let silent = read_reply("{\"type\":\"error\",\"id\":1}").unwrap();
    assert_eq!(
        silent.event_outcome(event.index).unwrap_err(),
        "timeline event 0 failed: unknown error"
    );
    let applied = read_reply("{\"type\":\"applied\",\"id\":1}").unwrap();
    assert!(applied.answers(event.id) && !applied.answers(2));
    assert_eq!(applied.event_outcome(event.index), Ok(()));
    driver.acknowledge(event.id).unwrap();
    let PlayStep::Apply(event) = play_step(&mut driver, Duration::from_millis(9)) else {
        panic!("the second event is due");
    };
    driver.acknowledge(event.id).unwrap();
    assert_eq!(
        play_step(&mut driver, Duration::from_millis(20)),
        PlayStep::Finished
    );
    assert!(read_reply("not json").is_err());
    assert_eq!(
        closed_message(3),
        "control channel closed while applying timeline event 3"
    );
}

#[test]
fn setting_the_loss_changes_one_field_of_one_rule() {
    assert_eq!(loss_rate(Percent::of(2_500)), Ok(2_500));
    assert_eq!(
        loss_rate(Percent::Outside).unwrap_err(),
        "--set-loss must be between 0 and 100"
    );
    let line = "{\"type\":\"state\",\"id\":1,\"state\":{\"rules\":[{\"id\":0,\"drop_permyriad\":7},{\"id\":1}]}}";
    let rules = change_loss(line, 2_500).unwrap();
    let first = serde_json::from_str::<serde_json::Value>(&rules[0]).unwrap();
    assert_eq!(first["drop_permyriad"], 2_500);
    assert_eq!(first["id"], 0);
    assert_eq!(rules[1], "{\"id\":1}");
    assert_eq!(
        change_loss("{\"type\":\"error\",\"id\":1}", 1).unwrap_err(),
        "control state request failed: {\"id\":1,\"type\":\"error\"}"
    );
    assert_eq!(
        change_loss("{\"type\":\"state\",\"id\":1}", 1).unwrap_err(),
        "state response has no rules"
    );
    assert_eq!(
        change_loss("{\"type\":\"state\",\"state\":{\"rules\":[]}}", 1).unwrap_err(),
        "state response has no first rule"
    );
    assert_eq!(
        change_loss("{\"type\":\"state\",\"state\":{\"rules\":[5]}}", 1).unwrap_err(),
        "state response has no first rule"
    );
    let done = read_reply("{\"type\":\"applied\",\"id\":2}").unwrap();
    assert_eq!(loss_outcome(&done), Ok(()));
    let refused = read_reply("{\"type\":\"error\"}").unwrap();
    assert_eq!(
        loss_outcome(&refused).unwrap_err(),
        "control update failed: {\"type\":\"error\"}"
    );
}

#[test]
fn loaded_timelines_must_be_of_the_kind_that_was_asked_for() {
    let mut profile = timeline();
    assert_eq!(
        check_loaded(&profile, TimelineKind::Profile, "p.yaml").unwrap_err(),
        "timeline event 0 has no rules"
    );
    profile.events[0].rules.push(rule(0));
    profile.events[1].rules.push(rule(0));
    assert_eq!(
        check_loaded(&profile, TimelineKind::Profile, "p.yaml"),
        Ok(())
    );
    assert_eq!(
        check_loaded(&profile, TimelineKind::Replay, "p.yaml").unwrap_err(),
        "timeline p.yaml has kind Profile, expected Replay"
    );
    assert!(!rules_impair(&profile.events[0].rules));
    profile.events[0].rules[0].jitter_ns = 1;
    assert!(rules_impair(&profile.events[0].rules));
}

fn http() -> TrafficSpec {
    TrafficSpec::Http {
        url: "https://api.example.test/health".into(),
        interval_ms: 500,
        timeout_ms: 1_500,
    }
}

#[test]
fn local_http_invocation_is_shell_free_and_bounded() {
    let invocation = invocation(
        &AttachSpec::Local {
            interface: "eth0".into(),
            process: None,
        },
        &http(),
    );
    assert_eq!(invocation.program, "curl");
    assert!(invocation
        .args
        .windows(2)
        .any(|pair| pair == ["--max-time", "1.500"]));
    assert_eq!(
        invocation.args.last().unwrap(),
        "https://api.example.test/health"
    );
}

#[test]
fn docker_and_lxc_execute_inside_the_source_workload() {
    let docker = invocation(
        &AttachSpec::Docker {
            container: "web".into(),
            interface: "eth0".into(),
            lifecycle: WorkloadLifecycle::Session,
            provision: None::<DockerProvision>,
        },
        &http(),
    );
    assert_eq!(docker.program, "docker");
    assert_eq!(&docker.args[..3], ["exec", "web", "curl"]);

    let lxc = invocation(
        &AttachSpec::Lxc {
            container: "web".into(),
            interface: "eth0".into(),
            lifecycle: WorkloadLifecycle::Session,
            provision: None,
        },
        &http(),
    );
    assert_eq!(lxc.program, "lxc-attach");
    assert_eq!(&lxc.args[..5], ["-n", "web", "--", "curl", "--silent"]);
}

#[test]
fn arbitrary_commands_preserve_argument_boundaries() {
    let spec = TrafficSpec::Command {
        program: "psql".into(),
        args: vec!["--command".into(), "select 1; drop nothing".into()],
        interval_ms: 1000,
    };
    let invocation = invocation(
        &AttachSpec::Local {
            interface: "eth0".into(),
            process: None,
        },
        &spec,
    );
    assert_eq!(invocation.program, "psql");
    assert_eq!(invocation.args[1], "select 1; drop nothing");
}

#[test]
fn every_attempt_succeeds_or_fails() {
    let mut status = TrafficStatus::default();
    status.record(Ok(true));
    status.record(Ok(false));
    status.record(Err("no curl".to_owned()));
    assert_eq!(
        status,
        TrafficStatus {
            attempts: 3,
            succeeded: 1,
            failed: 2,
            last_error: Some("no curl".to_owned()),
        }
    );
    assert_eq!(attempt_step(Some(false), true), AttemptStep::Ended(false));
    assert_eq!(attempt_step(None, true), AttemptStep::Kill);
    assert_eq!(attempt_step(None, false), AttemptStep::Wait);
}

#[test]
fn the_generator_rests_for_what_is_left_of_the_interval() {
    assert_eq!(
        rest_after(Duration::from_millis(500), Duration::from_millis(120)),
        Duration::from_millis(380)
    );
    assert_eq!(
        rest_after(Duration::from_millis(500), Duration::from_millis(900)),
        Duration::from_millis(0)
    );
    assert_eq!(nap(Duration::from_millis(380)), Duration::from_millis(50));
    assert_eq!(nap(Duration::from_millis(3)), Duration::from_millis(3));
}

fn docker_source() -> WorkloadSpec {
    WorkloadSpec::Docker {
        container: "generated".into(),
        interface: "eth0".into(),
        lifecycle: WorkloadLifecycle::Session,
        provision: Some(DockerProvision {
            image: "alpine:latest".into(),
            command: Vec::new(),
            environment: Vec::new(),
            remove_on_exit: true,
        }),
    }
}

fn lxc_source() -> WorkloadSpec {
    WorkloadSpec::Lxc {
        container: "generated".into(),
        interface: "eth0".into(),
        lifecycle: WorkloadLifecycle::Session,
        provision: Some(LxcProvision {
            distribution: "debian".into(),
            release: "trixie".into(),
            architecture: "amd64".into(),
            remove_on_exit: true,
        }),
    }
}

/// Runs a preparation with scripted answers and records the commands.
fn prepare(
    source: WorkloadSpec,
    statuses: &[bool],
    outputs: Vec<ProcessOutput>,
) -> (Result<Ownership, String>, Vec<Vec<String>>) {
    let mut statuses = statuses.iter();
    let mut outputs = outputs.into_iter();
    let mut calls: Vec<Vec<String>> = Vec::new();
    let (mut preparation, mut action) = Preparation::new(
        source,
        Tooling {
            agent: "agent".to_owned(),
            engine: None,
        },
    );
    loop {
        let event = match action {
            Action::Own(owned) => return (Ok(owned), calls),
            Action::Fail(failure) => return (Err(failure.message), calls),
            Action::Spawn(_) => Event::Spawned(Ok(())),
            Action::Install { .. } => Event::Installed(Ok(())),
            Action::Inspect(command) => {
                calls.push(line(&command));
                Event::Inspected(Ok(outputs.next().unwrap()))
            }
            Action::Create(command) | Action::Start(command) | Action::Remove(command) => {
                calls.push(line(&command));
                let success = *statuses.next().unwrap();
                Event::Ran(Ok(ExitReport {
                    success,
                    status: if success {
                        "exit status: 0".to_owned()
                    } else {
                        "exit status: 1".to_owned()
                    },
                }))
            }
        };
        action = preparation.advance(event);
    }
}

fn line(command: &Invocation) -> Vec<String> {
    let mut line = vec![command.program.clone()];
    line.extend(command.args.iter().cloned());
    line
}

fn missing_container_output(message: &str) -> ProcessOutput {
    ProcessOutput {
        exit: ExitReport {
            success: false,
            status: "exit status: 1".to_owned(),
        },
        stdout: String::new(),
        stderr: message.to_owned(),
    }
}

fn found(state: &str) -> ProcessOutput {
    ProcessOutput {
        exit: ExitReport {
            success: true,
            status: "exit status: 0".to_owned(),
        },
        stdout: state.to_owned(),
        stderr: String::new(),
    }
}

#[test]
fn session_starts_only_stopped_workloads() {
    assert!(lifecycle_decision(WorkloadLifecycle::Session, false).unwrap());
    assert!(!lifecycle_decision(WorkloadLifecycle::Session, true).unwrap());
}

#[test]
fn existing_never_takes_lifecycle_ownership() {
    assert!(!lifecycle_decision(WorkloadLifecycle::Existing, true).unwrap());
    assert!(lifecycle_decision(WorkloadLifecycle::Existing, false).is_err());
}

#[test]
fn auto_interface_ignores_loopback_and_selects_the_only_candidate() {
    assert_eq!(
        select_interface("Docker", "api", &strings(&["lo", "eth7"])).unwrap(),
        "eth7"
    );
}

#[test]
fn auto_interface_reports_ambiguous_candidates() {
    let error = select_interface("LXC", "router", &strings(&["eth1", "lo", "eth0"])).unwrap_err();
    assert!(error.contains("eth0, eth1"));
    assert!(error.contains("set one explicitly"));
    assert_eq!(
        select_interface("LXC", "router", &strings(&["lo"])).unwrap_err(),
        "LXC workload router has no non-loopback interface"
    );
}

#[test]
fn explicit_interface_does_not_require_runtime_discovery() {
    let source = WorkloadSpec::Docker {
        container: "not-running".into(),
        interface: "net2".into(),
        lifecycle: WorkloadLifecycle::Existing,
        provision: None,
    };
    assert_eq!(
        resolve_attach(&source, &nothing_found())
            .unwrap()
            .target_uri(),
        "docker://not-running/net2"
    );
}

#[test]
fn only_a_newly_provisioned_container_is_removed() {
    let source = docker_source();
    assert_eq!(cleanup_decision(&source, true), Cleanup::Remove);
    assert_eq!(cleanup_decision(&source, false), Cleanup::Stop);
}

#[test]
fn partial_create_failure_runs_remove_rollback() {
    let (result, calls) = prepare(
        docker_source(),
        &[false, true],
        vec![missing_container_output("No such container")],
    );
    assert!(result.is_err());
    assert_eq!(calls[1][..3], ["docker", "create", "--name"]);
    assert_eq!(calls[2], ["docker", "rm", "--force", "generated"]);
}

#[test]
fn partial_lxc_create_failure_runs_destroy_rollback() {
    let (result, calls) = prepare(
        lxc_source(),
        &[false, true],
        vec![missing_container_output("container doesn't exist")],
    );
    assert!(result.is_err());
    assert_eq!(calls[1][..3], ["lxc-create", "-n", "generated"]);
    assert_eq!(calls[2], ["lxc-destroy", "-n", "generated", "-f"]);
}

#[test]
fn start_failure_removes_a_newly_created_container() {
    let (result, calls) = prepare(
        docker_source(),
        &[true, false, true],
        vec![missing_container_output("No such container")],
    );
    assert!(result.is_err());
    assert_eq!(calls[2], ["docker", "start", "generated"]);
    assert_eq!(calls[3], ["docker", "rm", "--force", "generated"]);
}

#[test]
fn newly_provisioned_lxc_uses_remove_cleanup() {
    let source = lxc_source();
    assert_eq!(cleanup_decision(&source, true), Cleanup::Remove);
    assert_eq!(cleanup_decision(&source, false), Cleanup::Stop);
}

#[test]
fn local_process_is_owned_by_the_session() {
    let source = WorkloadSpec::Local {
        interface: "lo".into(),
        process: Some(LocalProcess {
            program: "/bin/sleep".into(),
            args: vec!["30".into()],
            environment: Vec::new(),
            working_directory: None,
        }),
    };
    let (result, calls) = prepare(source.clone(), &[], Vec::new());
    assert_eq!(result, Ok(Ownership::Process));
    assert!(calls.is_empty());
    let (mut preparation, _) = Preparation::new(
        source,
        Tooling {
            agent: "agent".to_owned(),
            engine: None,
        },
    );
    let Action::Fail(failure) =
        preparation.advance(Event::Spawned(Err("no such file".to_owned())))
    else {
        panic!("a process that cannot be started fails");
    };
    assert_eq!(failure.message, "starting local workload /bin/sleep");
    assert_eq!(failure.cause.as_deref(), Some("no such file"));
}

#[test]
fn running_containers_are_left_alone_and_stopped_ones_go_back() {
    let (result, calls) = prepare(docker_source(), &[], vec![found("true\n")]);
    assert_eq!(result, Ok(Ownership::Nothing));
    assert_eq!(
        calls,
        vec![strings(&[
            "docker",
            "inspect",
            "--format",
            "{{.State.Running}}",
            "generated"
        ])]
    );
    let (result, calls) = prepare(lxc_source(), &[true], vec![found("Stopped\n")]);
    assert_eq!(
        result,
        Ok(Ownership::Container {
            runtime: Runtime::Lxc,
            name: "generated".to_owned(),
            cleanup: Cleanup::Stop,
        })
    );
    assert_eq!(calls[1], ["lxc-start", "-n", "generated", "-d"]);
    let (result, _) = prepare(lxc_source(), &[], vec![found(" running ")]);
    assert_eq!(result, Ok(Ownership::Nothing));
}

#[test]
fn new_containers_are_removed_at_the_end() {
    let (result, calls) = prepare(
        lxc_source(),
        &[true, true],
        vec![missing_container_output("does not exist")],
    );
    assert_eq!(
        result,
        Ok(Ownership::Container {
            runtime: Runtime::Lxc,
            name: "generated".to_owned(),
            cleanup: Cleanup::Remove,
        })
    );
    assert_eq!(
        calls[1],
        [
            "lxc-create",
            "-n",
            "generated",
            "-t",
            "download",
            "--",
            "--dist",
            "debian",
            "--release",
            "trixie",
            "--arch",
            "amd64"
        ]
    );
}

#[test]
fn failed_inspections_are_not_taken_for_missing_containers() {
    let (result, calls) = prepare(
        docker_source(),
        &[],
        vec![missing_container_output("permission denied\n")],
    );
    assert_eq!(
        result.unwrap_err(),
        "Docker workload generated could not be inspected: permission denied"
    );
    assert_eq!(calls.len(), 1);
    let existing = WorkloadSpec::Docker {
        container: "generated".into(),
        interface: "eth0".into(),
        lifecycle: WorkloadLifecycle::Existing,
        provision: None,
    };
    let (result, _) = prepare(
        existing.clone(),
        &[],
        vec![missing_container_output("No Such Object: generated")],
    );
    assert_eq!(
        result.unwrap_err(),
        "Docker workload generated does not exist"
    );
    let (result, _) = prepare(existing, &[], vec![found("false")]);
    assert_eq!(
        result.unwrap_err(),
        "source workload is stopped; use lifecycle: session to let the TUI start it"
    );
}

#[test]
fn docker_variables_and_commands_keep_their_boundaries() {
    let mut source = docker_source();
    if let WorkloadSpec::Docker {
        provision: Some(provision),
        ..
    } = &mut source
    {
        provision.environment = vec![("MODE".to_owned(), "a b".to_owned())];
        provision.command = strings(&["serve", "--verbose"]);
    }
    let (_, calls) = prepare(
        source,
        &[true, true],
        vec![missing_container_output("No such container")],
    );
    assert_eq!(
        calls[1],
        [
            "docker",
            "create",
            "--name",
            "generated",
            "--env",
            "MODE=a b",
            "alpine:latest",
            "serve",
            "--verbose"
        ]
    );
}

#[test]
fn interfaces_are_read_line_by_line_and_asked_for_twenty_times() {
    let listing = found("lo\n eth0 \r\n\n");
    assert_eq!(
        Runtime::Docker.interfaces("api", &listing).unwrap(),
        strings(&["lo", "eth0"])
    );
    assert_eq!(
        Runtime::Lxc
            .interfaces("api", &missing_container_output("stopped\n"))
            .unwrap_err(),
        "could not inspect interfaces in LXC workload api: stopped"
    );
    assert!(asks_again(0, false));
    assert!(!asks_again(0, true));
    assert!(asks_again(INTERFACE_ATTEMPTS - 2, false));
    assert!(!asks_again(INTERFACE_ATTEMPTS - 1, false));
    assert_eq!(
        resolve_container_interface(
            Runtime::Docker,
            "api",
            "auto",
            &Ok(strings(&["lo", "eth0"]))
        )
        .unwrap(),
        "eth0"
    );
    let discovery = discover(
        &strings(&["wlan0", "eth0", "lo"]),
        strings(&["b", "a"]),
        Vec::new(),
    );
    assert_eq!(discovery.local_interfaces, ["eth0", "lo", "wlan0"]);
    assert_eq!(discovery.docker, ["b", "a"]);
}

#[test]
fn tools_go_to_their_own_path_or_among_local_programs() {
    assert_eq!(
        tool_destination("db", Some("opt/agent"), Some("agent")).unwrap(),
        "/var/lib/lxc/db/rootfs/opt/agent"
    );
    assert_eq!(
        tool_destination("db", None, Some("agent")).unwrap(),
        "/var/lib/lxc/db/rootfs/usr/local/bin/agent"
    );
    assert_eq!(
        tool_destination("db", None, None).unwrap_err(),
        "tool path has no filename"
    );
}

fn options() -> SessionOptions {
    SessionOptions {
        target: Some("local://eth9".to_owned()),
        socket: None,
        destination: "10.0.0.0/8".to_owned(),
        direction: Direction::Auto,
        agent: "faultline-agent".to_owned(),
        engine: Some("/opt/faultline-engine".to_owned()),
        agent_image: faultline::common::DEFAULT_AGENT_IMAGE.to_owned(),
    }
}

#[test]
fn runtime_target_and_agent_arguments_are_transport_only() {
    assert_eq!(container_target("api/eth7").unwrap(), ("api", "eth7"));
    assert_eq!(container_target("api").unwrap(), ("api", "auto"));
    assert_eq!(
        resolve_target(
            &Some("local://eth9".to_owned()),
            &Vec::new(),
            &Vec::new(),
            &nothing_found()
        )
        .unwrap(),
        "local://eth9"
    );

    let options = options();
    let mut command = Invocation::new(FAULTLINE_AGENT_APPLICATION);
    agent_arguments(&mut command, "eth9", "local", &options);
    assert_eq!(
        command.args,
        [
            "--interface",
            "eth9",
            "--direction",
            "egress",
            "--destination",
            "10.0.0.0/8",
            "--engine",
            "/opt/faultline-engine",
        ]
    );

    let docker = agent_command("docker://api/eth0", &options).unwrap();
    assert_eq!(docker.program, "docker");
    let docker_arguments = docker.args;
    assert!(docker_arguments
        .windows(2)
        .any(|args| args == ["--network", "container:api"]));
    assert!(docker_arguments
        .windows(2)
        .any(|args| args == ["--cap-add", "BPF"]));
    assert!(docker_arguments.contains(&faultline::common::DEFAULT_AGENT_IMAGE.to_owned()));
    assert!(docker_arguments
        .windows(2)
        .any(|args| args == ["--direction", "egress"]));
}

#[test]
fn targets_are_chosen_only_where_there_is_no_doubt() {
    let offered = discover_targets(&strings(&["web", "api"]), &strings(&["db"]));
    assert_eq!(
        offered,
        ["docker://api/auto", "docker://web/auto", "lxc://db/auto"]
    );
    assert_eq!(
        choose_target(&None, &offered).unwrap_err(),
        "multiple targets found; select one of: docker://api/auto, docker://web/auto, lxc://db/auto"
    );
    assert_eq!(
        choose_target(&None, &Vec::new()).unwrap_err(),
        "no running Docker/LXC target found; specify local://IFACE or start a container"
    );
    assert_eq!(
        choose_target(&None, &strings(&["lxc://db/auto"])).unwrap(),
        "lxc://db/auto"
    );
    assert_eq!(
        choose_target(&Some("auto://db/eth4".to_owned()), &offered).unwrap(),
        "lxc://db/eth4"
    );
    assert_eq!(
        choose_target(&Some("auto://cache".to_owned()), &offered).unwrap_err(),
        "container cache was not found in Docker or LXC"
    );
    let twice = discover_targets(&strings(&["db"]), &strings(&["db"]));
    assert_eq!(
        choose_target(&Some("auto://db".to_owned()), &twice).unwrap_err(),
        "container db exists in both Docker and LXC; use an explicit URI"
    );
    let automation = discover_targets(&strings(&["automation"]), &Vec::new());
    assert_eq!(
        choose_target(&Some("auto://automation/eth0".to_owned()), &automation).unwrap(),
        "docker://automation/eth0"
    );
}

#[test]
fn settled_targets_are_running_and_concrete() {
    let running = strings(&["db"]);
    assert_eq!(
        resolve_explicit_target("lxc://db", &running, &Ok(strings(&["lo", "eth2"]))).unwrap(),
        "lxc://db/eth2"
    );
    assert_eq!(
        resolve_explicit_target("docker://web/eth0", &running, &nothing_found()).unwrap_err(),
        "Docker container web is not running or is not visible; start it and check --list-targets"
    );
    assert_eq!(
        resolve_explicit_target("docker://db/auto", &running, &nothing_found()).unwrap_err(),
        "nobody looked"
    );
    assert_eq!(
        resolve_explicit_target("eth0", &running, &nothing_found()).unwrap_err(),
        "target must contain ://"
    );
    assert_eq!(
        resolve_explicit_target("local://auto", &running, &nothing_found()).unwrap_err(),
        "local target requires an explicit interface"
    );
    assert_eq!(
        resolve_explicit_target("vm://a/b", &running, &nothing_found()).unwrap_err(),
        "unsupported target runtime vm"
    );
    assert_eq!(
        resolve_explicit_target("lxc:///eth0", &running, &nothing_found()).unwrap_err(),
        "container target must be CONTAINER/INTERFACE"
    );
    assert!(validate_running_container("LXC", "db", &running).is_ok());
    let settled =
        resolve_explicit_target("lxc://db", &running, &Ok(strings(&["lo", "eth2"]))).unwrap();
    let command = agent_command(&settled, &options()).unwrap();
    assert_eq!(command.program, "lxc-attach");
    assert_eq!(
        &command.args[..6],
        ["-n", "db", "--", "faultline-agent", "--interface", "eth2"]
    );
}

#[test]
fn sessions_are_labelled_and_reaped() {
    assert_eq!(
        session_label("local://eth0", Direction::Auto),
        "local://eth0 [egress]"
    );
    assert_eq!(
        session_label("local://eth0", Direction::Ingress),
        "local://eth0 [ingress]"
    );
    let mut unix = options();
    assert_eq!(running_socket(&unix), None);
    unix.target = Some("unix:///tmp/a.sock".to_owned());
    assert_eq!(running_socket(&unix).as_deref(), Some("/tmp/a.sock"));
    unix.socket = Some("/tmp/b.sock".to_owned());
    assert_eq!(running_socket(&unix).as_deref(), Some("/tmp/b.sock"));
    assert_eq!(reap(ChildState::Running, true), Reaping::Wait);
    assert_eq!(reap(ChildState::Running, false), Reaping::Kill);
    assert_eq!(reap(ChildState::Ended, false), Reaping::Done);
    assert_eq!(reap(ChildState::Unknown, true), Reaping::Kill);
}
