use faultline::common::{
    edt_base_ns, gilbert_elliott_step, mix, seeded_delay_ns, seeded_hit, seeded_value,
    serialization_delay_ns, should_drop_hash, should_drop_random_sample, DiagnosticStats,
    FaultRule, FlowKey, RuleNode, ADDRESS_FAMILY_IPV4, LOSS_ALGORITHM_HASH, PROTOCOL_TCP,
};

fn flow() -> FlowKey {
    FlowKey {
        source_address: [192, 0, 2, 1, 0, 0, 0, 0, 0, 0, 0, 0, 0, 0, 0, 0],
        destination_address: [10, 20, 1, 2, 0, 0, 0, 0, 0, 0, 0, 0, 0, 0, 0, 0],
        source_port: 40_000,
        destination_port: 443,
        protocol: PROTOCOL_TCP,
        address_family: ADDRESS_FAMILY_IPV4,
        _padding: [0; 2],
    }
}

fn rule(drop_permyriad: u32, seed: u32) -> FaultRule {
    FaultRule {
        id: 7,
        seed,
        drop_permyriad,
        source_network: [0; 16],
        source_mask: [0; 16],
        ge_enter_permyriad: 0,
        ge_recover_permyriad: 0,
        ge_good_loss_permyriad: 0,
        ge_bad_loss_permyriad: 0,
        ge_idle_reset_secs: 0,
        duplicate_permyriad: 0,
        reorder_permyriad: 0,
        delay_ns: 0,
        jitter_ns: 0,
        bandwidth_bps: 0,
        protocol: PROTOCOL_TCP,
        loss_algorithm: LOSS_ALGORITHM_HASH,
        destination_port: 443,
        source_prefix_len: 0,
        address_family: ADDRESS_FAMILY_IPV4,
        _rule_padding: [0; 2],
    }
}

#[test]
fn zero_percent_never_drops() {
    for packet_index in 0..100_000 {
        assert!(!should_drop_hash(&flow(), packet_index, &rule(0, 42)));
    }
}

#[test]
fn one_hundred_percent_always_drops() {
    for packet_index in 0..100_000 {
        assert!(should_drop_hash(&flow(), packet_index, &rule(10_000, 42)));
    }
}

#[test]
fn the_same_seed_repeats_the_same_pattern() {
    for packet_index in 0..10_000 {
        let first = should_drop_hash(&flow(), packet_index, &rule(500, 42));
        let second = should_drop_hash(&flow(), packet_index, &rule(500, 42));
        assert_eq!(first, second);
    }
}

#[test]
fn a_different_seed_changes_the_pattern() {
    let differences = (0..10_000)
        .filter(|packet_index| {
            should_drop_hash(&flow(), *packet_index, &rule(500, 42))
                != should_drop_hash(&flow(), *packet_index, &rule(500, 43))
        })
        .count();
    assert!(differences > 500);
}

#[test]
fn observed_loss_is_close_to_the_requested_rate() {
    let dropped = (0..100_000)
        .filter(|packet_index| should_drop_hash(&flow(), *packet_index, &rule(500, 42)))
        .count();
    assert!((4_700..=5_300).contains(&dropped), "dropped={dropped}");
}

#[test]
fn random_sample_respects_zero_and_one_hundred_percent() {
    for sample in [0, 1, u32::MAX / 2, u32::MAX] {
        assert!(!should_drop_random_sample(0, sample));
        assert!(should_drop_random_sample(10_000, sample));
    }
}

#[test]
fn random_sample_maps_the_lower_half_to_fifty_percent_loss() {
    assert!(should_drop_random_sample(5_000, 0));
    assert!(should_drop_random_sample(5_000, u32::MAX / 2));
    assert!(!should_drop_random_sample(5_000, u32::MAX / 2 + 1));
    assert!(!should_drop_random_sample(5_000, u32::MAX));
}

#[test]
fn fault_rule_abi_remains_compact_and_stable() {
    assert_eq!(core::mem::size_of::<FaultRule>(), 104);
    assert_eq!(core::mem::align_of::<FaultRule>(), 8);
    assert_eq!(core::mem::size_of::<RuleNode>(), 120);
    assert_eq!(core::mem::align_of::<RuleNode>(), 8);
}

#[test]
fn pure_loss_is_not_a_queue_or_clone_impairment() {
    let loss = FaultRule {
        drop_permyriad: 5_000,
        ..Default::default()
    };
    assert!(!loss.has_impairments());
    assert!(FaultRule {
        delay_ns: 1,
        ..loss
    }
    .has_impairments());
    assert!(FaultRule {
        duplicate_permyriad: 1,
        ..loss
    }
    .has_impairments());
}

#[test]
fn diagnostic_stats_abi_is_a_dense_counter_block() {
    assert_eq!(core::mem::size_of::<DiagnosticStats>(), 11 * 8);
    assert_eq!(core::mem::align_of::<DiagnosticStats>(), 8);
}

#[test]
fn gilbert_elliott_is_repeatable_and_bursty() {
    let mut rule = rule(0, 42);
    rule.ge_enter_permyriad = 500;
    rule.ge_recover_permyriad = 1_000;
    rule.ge_good_loss_permyriad = 0;
    rule.ge_bad_loss_permyriad = 10_000;

    let run = || {
        let mut bad = false;
        let mut pattern = [false; 1_000];
        for (packet_index, dropped) in pattern.iter_mut().enumerate() {
            let result = gilbert_elliott_step(&flow(), packet_index as u64, bad, &rule);
            bad = result.0;
            *dropped = result.1;
        }
        pattern
    };
    let first = run();
    assert_eq!(first, run());
    assert!(first
        .windows(4)
        .any(|window| window.iter().all(|dropped| *dropped)));
    assert!(first.iter().any(|dropped| !dropped));
}

#[test]
fn seeded_impairment_timing_is_repeatable() {
    let mut rule = rule(0, 42);
    rule.delay_ns = 20_000_000;
    rule.jitter_ns = 5_000_000;
    rule.reorder_permyriad = 2_500;
    let first: [u64; 64] = core::array::from_fn(|index| {
        let reordered = seeded_hit(
            &flow(),
            index as u64,
            &rule,
            0x7265_6f72_6465_7200,
            rule.reorder_permyriad,
        );
        seeded_delay_ns(&flow(), index as u64, &rule, reordered)
    });
    let second: [u64; 64] = core::array::from_fn(|index| {
        let reordered = seeded_hit(
            &flow(),
            index as u64,
            &rule,
            0x7265_6f72_6465_7200,
            rule.reorder_permyriad,
        );
        seeded_delay_ns(&flow(), index as u64, &rule, reordered)
    });

    assert_eq!(first, second);
    assert!(first.contains(&0));
    assert!(first.iter().any(|delay| *delay >= 15_000_000));

    rule.seed = 43;
    let different: [u64; 64] = core::array::from_fn(|index| {
        let reordered = seeded_hit(
            &flow(),
            index as u64,
            &rule,
            0x7265_6f72_6465_7200,
            rule.reorder_permyriad,
        );
        seeded_delay_ns(&flow(), index as u64, &rule, reordered)
    });
    assert_ne!(first, different);
}

#[test]
fn delay_uses_the_callers_single_reorder_decision() {
    let mut rule = rule(0, 42);
    rule.delay_ns = 20_000_000;
    rule.jitter_ns = 5_000_000;
    rule.reorder_permyriad = 10_000;

    assert_eq!(seeded_delay_ns(&flow(), 0, &rule, true), 0);
    assert!(seeded_delay_ns(&flow(), 0, &rule, false) >= 15_000_000);
}

#[test]
fn seeded_duplication_pattern_is_repeatable_and_seeded() {
    let mut rule = rule(0, 42);
    rule.duplicate_permyriad = 2_000;
    let pattern = |rule: &FaultRule| -> [bool; 128] {
        core::array::from_fn(|index| {
            seeded_hit(
                &flow(),
                index as u64,
                rule,
                0x6475_706c_6963_6174,
                rule.duplicate_permyriad,
            )
        })
    };
    let first = pattern(&rule);
    assert_eq!(first, pattern(&rule));
    assert!(first.iter().any(|selected| *selected));
    assert!(first.iter().any(|selected| !selected));

    rule.seed = 43;
    assert_ne!(first, pattern(&rule));
}

#[test]
fn bandwidth_is_converted_to_wire_serialization_time() {
    assert_eq!(serialization_delay_ns(125_000, 1_000_000), 1_000_000_000);
    assert_eq!(serialization_delay_ns(1_500, 0), 0);
}

#[test]
fn edt_never_moves_an_existing_deadline_backwards() {
    assert_eq!(edt_base_ns(1_000, 0), 1_000);
    assert_eq!(edt_base_ns(1_000, 900), 1_000);
    assert_eq!(edt_base_ns(1_000, 1_500), 1_500);
}

#[test]
fn a_higher_rate_loses_every_packet_that_a_lower_one_loses() {
    for packet_index in 0..2_000 {
        if should_drop_hash(&flow(), packet_index, &rule(500, 42)) {
            assert!(should_drop_hash(&flow(), packet_index, &rule(900, 42)));
        }
    }
    assert!(should_drop_random_sample(5_001, u32::MAX / 2));
}

#[test]
fn mixing_is_a_fixed_permutation_of_words() {
    assert_eq!(mix(0), 0);
    assert_ne!(mix(1), mix(2));
    assert_eq!(mix(1), mix(1));
}

#[test]
fn draws_depend_on_flow_packet_rule_and_domain() {
    let base = rule(0, 42);
    let mut other_rule = base;
    other_rule.id = 8;
    let mut other_flow = flow();
    other_flow.source_port = 40_001;
    let drawn = seeded_value(&flow(), 3, &base, 9);
    assert_eq!(drawn, seeded_value(&flow(), 3, &base, 9));
    assert_ne!(drawn, seeded_value(&flow(), 4, &base, 9));
    assert_ne!(drawn, seeded_value(&flow(), 3, &base, 10));
    assert_ne!(drawn, seeded_value(&flow(), 3, &other_rule, 9));
    assert_ne!(drawn, seeded_value(&other_flow, 3, &base, 9));
}

#[test]
fn delays_stay_within_the_jitter() {
    let mut rule = rule(0, 42);
    rule.delay_ns = 20_000_000;
    rule.jitter_ns = 5_000_000;
    for packet_index in 0..1_000 {
        let delay = seeded_delay_ns(&flow(), packet_index, &rule, false);
        assert!((15_000_000..=25_000_000).contains(&delay), "delay={delay}");
    }
    rule.jitter_ns = 0;
    assert_eq!(seeded_delay_ns(&flow(), 1, &rule, false), 20_000_000);
}

#[test]
fn wire_time_is_bounded_rather_than_wraps() {
    assert_eq!(
        serialization_delay_ns(u32::MAX, 1),
        serialization_delay_ns(1_000_000_000, 1)
    );
    assert_eq!(
        serialization_delay_ns(u32::MAX, 1),
        8_000_000_000_000_000_000
    );
    assert_eq!(serialization_delay_ns(1, 8), 1_000_000_000);
    assert_eq!(serialization_delay_ns(1, 3), 2_666_666_666);
}

#[test]
fn decisions_about_loss_ignore_the_other_impairments() {
    let plain = rule(2_500, 42);
    let held = FaultRule {
        delay_ns: 5_000_000,
        jitter_ns: 1_000_000,
        bandwidth_bps: 8_000,
        duplicate_permyriad: 10_000,
        destination_port: 80,
        ..plain
    };
    let mut bad = false;
    for packet_index in 0..1_000 {
        assert_eq!(
            should_drop_hash(&flow(), packet_index, &plain),
            should_drop_hash(&flow(), packet_index, &held)
        );
        let stepped = gilbert_elliott_step(&flow(), packet_index, bad, &plain);
        assert_eq!(stepped, gilbert_elliott_step(&flow(), packet_index, bad, &held));
        bad = stepped.0;
    }
}
