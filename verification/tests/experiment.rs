use faultline::control::ControlCommand;
use faultline::experiment_spec::{
    CommunicationSelector, DestinationSpec, ExperimentSpec, FaultEvent, FaultProfile, FaultSpec,
    NetworkProtocol, ResolutionStrategy, EXPERIMENT_VERSION,
};
use faultline::net::{IpAddr, IpNet};
use faultline::plan::{ResolvedExperiment, ResolverAnswers};
use faultline::rule_store::RuleStore;
use faultline::selection::{
    needs_resolver, resolve_selector, validate_resolved_bindings, DestinationResolver,
};
use faultline::workload_spec::{
    DockerProvision, LocalProcess, TrafficSpec, WorkloadLifecycle, WorkloadSpec,
};

struct Resolver;

impl DestinationResolver for Resolver {
    fn resolve(&self, hostname: &str) -> Result<Vec<IpAddr>, String> {
        assert_eq!(hostname, "api.example.test");
        Ok(vec![
            IpAddr::parse("2001:db8::4").unwrap(),
            IpAddr::parse("192.0.2.4").unwrap(),
            IpAddr::parse("192.0.2.4").unwrap(),
        ])
    }
}

struct Broken;

impl DestinationResolver for Broken {
    fn resolve(&self, hostname: &str) -> Result<Vec<IpAddr>, String> {
        Err(format!("could not resolve {hostname}: nobody there"))
    }
}

fn network(text: &str) -> IpNet {
    IpNet::parse(text).unwrap()
}

fn event(at_ms: u64, drop_permyriad: u32) -> FaultEvent {
    FaultEvent {
        at_ms,
        fault: FaultSpec {
            drop_permyriad,
            ..FaultSpec::default()
        },
        faults: Vec::new(),
    }
}

fn manifest() -> ExperimentSpec {
    ExperimentSpec {
        version: EXPERIMENT_VERSION,
        name: "api outage".to_owned(),
        source: WorkloadSpec::Docker {
            container: "web-01".to_owned(),
            interface: "auto".to_owned(),
            lifecycle: WorkloadLifecycle::default(),
            provision: None,
        },
        destination: Some(DestinationSpec {
            selector: "api.example.test".to_owned(),
            protocol: NetworkProtocol::Tcp,
            port: Some(443),
            resolution: ResolutionStrategy::default(),
        }),
        selectors: Vec::new(),
        profile: FaultProfile {
            duration_ms: 1000,
            events: vec![event(0, 0), event(250, 10_000), event(750, 0)],
        },
        traffic: None,
        extensions: vec![("ui.color".to_owned(), "\"cyan\"".to_owned())],
    }
}

fn compile(spec: &ExperimentSpec) -> ResolvedExperiment {
    let attach = spec.source.resolved_attach("eth0".to_owned()).unwrap();
    spec.compile(&Resolver, attach).unwrap()
}

fn selector(
    name: &str,
    source: Option<&str>,
    destination: &str,
    protocol: NetworkProtocol,
    port: Option<u16>,
) -> CommunicationSelector {
    CommunicationSelector {
        name: name.to_owned(),
        source: source.map(str::to_owned),
        destination: DestinationSpec {
            selector: destination.to_owned(),
            protocol,
            port,
            resolution: ResolutionStrategy::Snapshot,
        },
    }
}

fn related(selectors: Vec<CommunicationSelector>, events: Vec<FaultEvent>) -> ExperimentSpec {
    ExperimentSpec {
        version: 1,
        name: "relations".to_owned(),
        source: WorkloadSpec::Local {
            interface: "eth0".to_owned(),
            process: None,
        },
        destination: None,
        selectors,
        profile: FaultProfile {
            duration_ms: 1000,
            events,
        },
        traffic: None,
        extensions: Vec::new(),
    }
}

#[test]
fn hostname_is_snapshotted_to_l3_rules_and_recorded() {
    let spec = manifest();
    let plan = compile(&spec);
    assert_eq!(
        plan.destination.unwrap().networks,
        vec![network("192.0.2.4/32"), network("2001:db8::4/128")]
    );
    assert_eq!(plan.timeline.events.len(), 3);
    assert_eq!(plan.timeline.events[1].rules.len(), 2);
    assert!(plan.timeline.events[1]
        .rules
        .iter()
        .all(|rule| rule.drop_permyriad == 10_000 && rule.destination_port == 443));
}

#[test]
fn resolved_artifact_round_trips_and_rejects_selector_drift() {
    let spec = manifest();
    let mut plan = compile(&spec);
    plan.validate_for_rerun().unwrap();
    plan.timeline.events[0].rules[0].destination = network("198.51.100.1/32");
    assert!(plan
        .validate_for_rerun()
        .unwrap_err()
        .contains("does not match its selector binding"));
}

#[test]
fn cidr_does_not_invoke_dns_and_port_requires_transport() {
    let mut spec = manifest();
    spec.destination.as_mut().unwrap().selector = "10.0.0.0/8".to_owned();
    spec.destination.as_mut().unwrap().protocol = NetworkProtocol::Any;
    assert!(spec.validate().unwrap_err().contains("requires tcp or udp"));
    spec.destination.as_mut().unwrap().port = None;
    assert_eq!(
        compile(&spec).destination.unwrap().networks,
        vec![network("10.0.0.0/8")]
    );
}

#[test]
fn all_source_runtimes_compile_to_transport_uris() {
    assert_eq!(
        WorkloadSpec::Local {
            interface: "eth9".into(),
            process: None,
        }
        .target_uri(),
        "local://eth9"
    );
    assert_eq!(
        WorkloadSpec::Lxc {
            container: "db".into(),
            interface: "net1".into(),
            lifecycle: WorkloadLifecycle::Existing,
            provision: None,
        }
        .target_uri(),
        "lxc://db/net1"
    );
}

#[test]
fn concrete_attach_is_injected_into_the_effective_target() {
    let spec = manifest();
    let attach = spec.source.resolved_attach("ens5".into()).unwrap();
    let plan = spec.compile(&Resolver, attach).unwrap();
    assert_eq!(plan.attach.target_uri(), "docker://web-01/ens5");
    assert_eq!(
        plan.timeline.target.as_deref(),
        Some("docker://web-01/ens5")
    );
}

#[test]
fn auto_cannot_enter_a_resolved_experiment() {
    let spec = manifest();
    assert!(spec.source.resolved_attach("auto".into()).is_err());
}

#[test]
fn traffic_is_validated_and_preserved_in_the_effective_plan() {
    let mut spec = manifest();
    spec.traffic = Some(TrafficSpec::Http {
        url: "https://api.example.test/health".into(),
        interval_ms: 250,
        timeout_ms: 1_000,
    });
    assert_eq!(compile(&spec).traffic, spec.traffic);
    spec.traffic = Some(TrafficSpec::Command {
        program: String::new(),
        args: Vec::new(),
        interval_ms: 1_000,
    });
    assert!(spec.validate().unwrap_err().contains("program"));
}

#[test]
fn named_selectors_compile_source_and_destination_relations_to_stable_rule_ids() {
    let outage = FaultSpec {
        drop_permyriad: 10_000,
        seed: 7,
        ..FaultSpec::default()
    };
    let spec = related(
        vec![
            selector(
                "a_to_b",
                Some("10.0.0.10/32"),
                "10.0.1.20/32",
                NetworkProtocol::Tcp,
                Some(443),
            ),
            selector(
                "a_to_c",
                Some("10.0.0.10/32"),
                "10.0.2.30/32",
                NetworkProtocol::Tcp,
                Some(443),
            ),
        ],
        vec![
            FaultEvent {
                at_ms: 0,
                fault: FaultSpec::default(),
                faults: vec![
                    ("a_to_b".to_owned(), FaultSpec::default()),
                    ("a_to_c".to_owned(), FaultSpec::default()),
                ],
            },
            FaultEvent {
                at_ms: 250,
                fault: FaultSpec::default(),
                faults: vec![
                    ("a_to_b".to_owned(), outage),
                    ("a_to_c".to_owned(), FaultSpec::default()),
                ],
            },
        ],
    );
    let plan = spec
        .compile(
            &Resolver,
            spec.source.resolved_attach("eth0".into()).unwrap(),
        )
        .unwrap();
    assert!(plan.destination.is_none());
    assert_eq!(plan.selectors.len(), 2);
    assert_eq!(plan.selectors[0].rules[0].rule_id, 0);
    assert_eq!(plan.selectors[1].rules[0].rule_id, 1);
    assert_eq!(plan.timeline.events[1].rules[0].drop_permyriad, 10_000);
    assert_eq!(plan.timeline.events[1].rules[1].drop_permyriad, 0);
    assert_eq!(
        plan.timeline.events[1].rules[0].source,
        Some(network("10.0.0.10/32"))
    );
    assert!(plan.selectors[0].rules[0]
        .precedence
        .contains("destination /32"));
    assert_eq!(plan.timeline.events[1].rules[0].seed, 7);
    assert_eq!(plan.timeline.events[1].rules[1].seed, 1);
}

#[test]
fn selectors_that_collapse_to_the_same_dataplane_key_are_rejected() {
    let mut spec = manifest();
    let destination = spec.destination.take().unwrap();
    spec.selectors = vec![
        CommunicationSelector {
            name: "https".into(),
            source: None,
            destination: destination.clone(),
        },
        CommunicationSelector {
            name: "dns".into(),
            source: Some("0.0.0.0/0".into()),
            destination: DestinationSpec {
                protocol: NetworkProtocol::Udp,
                port: Some(53),
                ..destination
            },
        },
    ];
    for event in &mut spec.profile.events {
        event.faults = vec![
            ("dns".to_owned(), FaultSpec::default()),
            ("https".to_owned(), event.fault),
        ];
    }
    let error = spec
        .compile(
            &Resolver,
            spec.source.resolved_attach("eth0".into()).unwrap(),
        )
        .unwrap_err();
    assert!(error.contains("protocol and port do not participate"));
}

fn two_sources(left: &str, right: &str, to: &str) -> ExperimentSpec {
    related(
        vec![
            selector("left", Some(left), "192.0.2.0/24", NetworkProtocol::Any, None),
            selector("right", Some(right), to, NetworkProtocol::Any, None),
        ],
        vec![FaultEvent {
            at_ms: 0,
            fault: FaultSpec::default(),
            faults: vec![
                ("left".to_owned(), FaultSpec::default()),
                ("right".to_owned(), FaultSpec::default()),
            ],
        }],
    )
}

#[test]
fn bits_behind_a_prefix_do_not_tell_selectors_apart() {
    let attach = |spec: &ExperimentSpec| spec.source.resolved_attach("eth0".into()).unwrap();
    for (right, to) in [("10.0.0.2/8", "192.0.2.0/24"), ("10.0.0.1/8", "192.0.2.9/24")] {
        let spec = two_sources("10.0.0.1/8", right, to);
        let error = spec.compile(&Resolver, attach(&spec)).unwrap_err();
        assert!(error.contains("selectors left and right resolve to the same"));
    }
    let spec = two_sources("10.0.0.0/8", "10.9.0.0/16", "192.0.2.9/24");
    let plan = spec.compile(&Resolver, attach(&spec)).unwrap();
    assert_eq!(
        plan.selection_notes,
        vec!["selector right source 10.9.0.0/16 wins for destination 192.0.2.9/24; a protocol/port miss does not fall back to the less-specific source".to_owned()]
    );
    let command = ControlCommand::ReplaceRules(plan.timeline.events[0].rules.clone());
    assert!(RuleStore::new().apply(&command).is_ok());
}

#[test]
fn lists_of_names_must_ascend_without_repeats() {
    let mut spec = two_sources("10.0.0.0/8", "10.9.0.0/16", "192.0.2.0/24");
    assert_eq!(spec.validate(), Ok(()));
    spec.profile.events[0].faults.push(("right".to_owned(), FaultSpec::default()));
    assert_eq!(
        spec.validate(),
        Err("profile event 0 faults must have distinct names in ascending order".to_owned())
    );
    spec.profile.events[0].faults.pop();
    spec.profile.events[0].faults.reverse();
    assert_eq!(
        spec.validate(),
        Err("profile event 0 faults must have distinct names in ascending order".to_owned())
    );
    spec.profile.events[0].faults.remove(0);
    assert_eq!(
        spec.validate(),
        Err("profile event 0 faults must name every selector exactly once".to_owned())
    );
    let mut spec = manifest();
    spec.extensions =
        vec![("b".to_owned(), "1".to_owned()), ("a".to_owned(), "2".to_owned())];
    assert_eq!(
        spec.validate(),
        Err("extensions must have distinct names in ascending order".to_owned())
    );
    let twice = vec![("A".to_owned(), "1".to_owned()), ("A".to_owned(), "2".to_owned())];
    let process = LocalProcess {
        program: "true".into(),
        args: Vec::new(),
        environment: twice.clone(),
        working_directory: None,
    };
    assert_eq!(
        process.validate(),
        Err("local process environment must have distinct names in ascending order".to_owned())
    );
    let provision = DockerProvision {
        image: "web".into(),
        command: Vec::new(),
        environment: twice,
        remove_on_exit: true,
    };
    assert_eq!(
        provision.validate(),
        Err("Docker provision environment must have distinct names in ascending order".to_owned())
    );
}

#[test]
fn overlapping_prefix_precedence_is_explained_in_the_resolved_plan() {
    let outage = FaultSpec {
        drop_permyriad: 10_000,
        ..FaultSpec::default()
    };
    let mut spec = related(
        vec![
            selector(
                "catch_all",
                None,
                "192.0.2.0/24",
                NetworkProtocol::Any,
                None,
            ),
            selector(
                "client_a",
                Some("10.0.0.7/32"),
                "192.0.2.0/24",
                NetworkProtocol::Tcp,
                Some(443),
            ),
        ],
        vec![FaultEvent {
            at_ms: 0,
            fault: FaultSpec::default(),
            faults: vec![
                ("catch_all".to_owned(), FaultSpec::default()),
                ("client_a".to_owned(), outage),
            ],
        }],
    );
    spec.profile.duration_ms = 1;
    let plan = spec
        .compile(
            &Resolver,
            spec.source.resolved_attach("eth0".into()).unwrap(),
        )
        .unwrap();
    assert_eq!(plan.selection_notes.len(), 1);
    assert!(plan.selection_notes[0].contains("client_a source 10.0.0.7/32 wins"));
    assert!(plan.selection_notes[0].contains("does not fall back"));
}

#[test]
fn longer_destinations_win_before_sources_are_looked_at() {
    let spec = related(
        vec![
            selector(
                "wide",
                Some("10.0.0.7/32"),
                "2001:db8::/32",
                NetworkProtocol::Any,
                None,
            ),
            selector("host", None, "2001:db8::4", NetworkProtocol::Any, None),
        ],
        vec![FaultEvent {
            at_ms: 0,
            fault: FaultSpec::default(),
            faults: vec![
                ("host".to_owned(), FaultSpec::default()),
                ("wide".to_owned(), FaultSpec::default()),
            ],
        }],
    );
    let attach = spec.source.resolved_attach("eth0".into()).unwrap();
    assert_eq!(
        spec.compile(&Resolver, attach).unwrap_err(),
        "selector wide has no source and destination addresses in the same family"
    );
    let mut same_family = spec.clone();
    same_family.selectors[0].source = None;
    let attach = spec.source.resolved_attach("eth0".into()).unwrap();
    let plan = same_family.compile(&Resolver, attach).unwrap();
    assert_eq!(
        plan.selection_notes,
        ["selector host destination 2001:db8::4/128 wins inside its prefix before source selection; a protocol/port miss does not fall back to the less-specific destination"]
    );
    let notes = validate_resolved_bindings(&plan.selectors).unwrap();
    assert_eq!(notes, plan.selection_notes);
}

#[test]
fn plans_can_be_carried_out_again_and_published() {
    let plan = compile(&manifest());
    assert_eq!(plan.validate_for_rerun(), Ok(()));
    for event in &plan.timeline.events {
        assert!(RuleStore::new().replace(&event.rules).is_ok());
    }
    let ids = plan.timeline.events[0]
        .rules
        .iter()
        .map(|rule| rule.id)
        .collect::<Vec<_>>();
    assert_eq!(ids, vec![0, 1]);
}

#[test]
fn reruns_refuse_plans_that_were_tampered_with() {
    let whole = compile(&manifest());

    let mut version = whole.clone();
    version.version = 3;
    assert_eq!(
        version.validate_for_rerun().unwrap_err(),
        "unsupported experiment version 3"
    );

    let mut target = whole.clone();
    target.timeline.target = Some("docker://other/eth0".to_owned());
    assert_eq!(
        target.validate_for_rerun().unwrap_err(),
        "resolved timeline target does not match its attach point"
    );

    let mut empty = whole.clone();
    empty.selectors.clear();
    assert_eq!(
        empty.validate_for_rerun().unwrap_err(),
        "resolved experiment has no selectors"
    );

    let mut repeated = whole.clone();
    repeated.selectors[0].rules[1].rule_id = 0;
    assert_eq!(
        repeated.validate_for_rerun().unwrap_err(),
        "resolved selector bindings repeat a rule id"
    );

    let mut missing = whole.clone();
    missing.timeline.events[1].rules.pop();
    assert_eq!(
        missing.validate_for_rerun().unwrap_err(),
        "resolved event 1 does not contain the complete selector ruleset"
    );

    let mut unknown = whole.clone();
    unknown.timeline.events[2].rules[0].id = 9;
    assert_eq!(
        unknown.validate_for_rerun().unwrap_err(),
        "resolved event 2 has unknown rule id 9"
    );

    let mut drifted = whole;
    drifted.timeline.events[0].rules[1].destination_port = 80;
    assert_eq!(
        drifted.validate_for_rerun().unwrap_err(),
        "resolved event 0 rule 1 does not match its selector binding"
    );
}

#[test]
fn resolvers_are_asked_for_host_names_alone() {
    assert!(needs_resolver("api.example.test"));
    assert!(!needs_resolver("10.0.0.1"));
    assert!(!needs_resolver("2001:db8::/32"));
    let nothing: Result<Vec<IpAddr>, String> = Ok(Vec::new());
    assert_eq!(
        resolve_selector("10.0.0.1", &nothing).unwrap(),
        vec![network("10.0.0.1/32")]
    );
    assert_eq!(
        resolve_selector("nowhere.test", &nothing).unwrap_err(),
        "destination nowhere.test resolved to no addresses"
    );
    assert_eq!(
        resolve_selector("nowhere.test", &Err("no server".to_owned())).unwrap_err(),
        "no server"
    );
    let attach = manifest()
        .source
        .resolved_attach("eth0".to_owned())
        .unwrap();
    assert_eq!(
        manifest().compile(&Broken, attach).unwrap_err(),
        "could not resolve api.example.test: nobody there"
    );
}

#[test]
fn answers_can_be_handed_in() {
    let spec = manifest();
    let answers = vec![ResolverAnswers {
        destination: Ok(vec![IpAddr::parse("198.51.100.7").unwrap()]),
        source: Ok(Vec::new()),
    }];
    let attach = spec.source.resolved_attach("eth0".to_owned()).unwrap();
    let plan = spec.compile_with(&answers, attach).unwrap();
    assert_eq!(
        plan.selectors[0].destination.networks,
        vec![network("198.51.100.7/32")]
    );
    assert!(plan.environment.is_none() && plan.execution.is_none());
}

#[test]
fn experiment_errors_say_what_is_wrong() {
    let mut version = manifest();
    version.version = 2;
    assert_eq!(
        version.validate().unwrap_err(),
        "unsupported experiment version 2"
    );

    let mut name = manifest();
    name.name = " \t".to_owned();
    assert_eq!(
        name.validate().unwrap_err(),
        "experiment name must not be empty"
    );

    let mut both = manifest();
    both.selectors = vec![selector(
        "x",
        None,
        "10.0.0.0/8",
        NetworkProtocol::Any,
        None,
    )];
    assert_eq!(
        both.validate().unwrap_err(),
        "use either destination or selectors, not both"
    );

    let mut neither = manifest();
    neither.destination = None;
    assert_eq!(
        neither.validate().unwrap_err(),
        "experiment requires destination or selectors"
    );

    let mut late = manifest();
    late.profile.events[0].at_ms = 1;
    assert_eq!(
        late.validate().unwrap_err(),
        "profile must contain an event at 0ms"
    );

    let mut order = manifest();
    order.profile.events[2].at_ms = 200;
    assert_eq!(
        order.validate().unwrap_err(),
        "profile event 2 is out of order"
    );

    let mut long = manifest();
    long.profile.events[2].at_ms = 1001;
    assert_eq!(
        long.validate().unwrap_err(),
        "profile event 2 exceeds duration"
    );

    let mut loss = manifest();
    loss.profile.events[1].fault.drop_permyriad = 10_001;
    assert_eq!(
        loss.validate().unwrap_err(),
        "profile event 1 has loss above 100%"
    );

    let mut named = manifest();
    named.profile.events[1].faults = vec![("x".to_owned(), FaultSpec::default())];
    assert_eq!(
        named.validate().unwrap_err(),
        "profile event 1 uses faults without selectors"
    );

    let mut unnamed = related(
        vec![selector(
            "x",
            Some(""),
            "10.0.0.0/8",
            NetworkProtocol::Any,
            None,
        )],
        vec![event(0, 0)],
    );
    assert_eq!(
        unnamed.validate().unwrap_err(),
        "selector x has an empty source"
    );
    unnamed.selectors[0].source = None;
    assert_eq!(
        unnamed.validate().unwrap_err(),
        "profile event 0 faults must name every selector exactly once"
    );
    let again = unnamed.selectors[0].clone();
    unnamed.selectors.push(again);
    assert_eq!(
        unnamed.validate().unwrap_err(),
        "selector names must be unique"
    );

    let mut port = manifest();
    port.destination.as_mut().unwrap().port = Some(0);
    assert_eq!(
        port.validate().unwrap_err(),
        "destination port must be non-zero when present"
    );
}

#[test]
fn attach_points_must_belong_to_the_source() {
    let spec = manifest();
    let other = WorkloadSpec::Docker {
        container: "elsewhere".to_owned(),
        interface: "auto".to_owned(),
        lifecycle: WorkloadLifecycle::Existing,
        provision: None,
    };
    let attach = other.resolved_attach("eth0".to_owned()).unwrap();
    assert_eq!(
        spec.compile(&Resolver, attach).unwrap_err(),
        "resolved attach does not match the experiment source"
    );
    assert_eq!(
        WorkloadSpec::Local {
            interface: "eth0".to_owned(),
            process: None
        }
        .resolved_attach("eth1".to_owned())
        .unwrap_err(),
        "resolved interface eth1 does not match requested interface eth0"
    );
}
