use truth_layer::boundary::{
    grammar_fingerprint, receipt_chain_digest, submit, validate_world_coherence, CharacterId,
    CharacterOwner, ClaimId, Command, EconomyOwner, GatherCommand, InfraTier, MassGrams, OutcomeKind,
    PartialReason, Receipt, RefusalReason, ResourceKind, SiteId, SocialOwner, Stamina, StaminaBand,
    Verb, WitnessCommand, World,
};
use truth_layer::oracles::{
    baseline_by_kind, cell_bounds, closed_reasons, exhausted_gate, mass_authority_gate,
    mass_conserved, refusal_zero_mutation, run_all, shadow_expectation, shadow_final_state,
    stamina_in_bounds, KindBaseline, OracleCtx, ORACLE_COUNT, ORACLE_SUITE_VERSION,
};

// Fixture numbers are mechanical examples only — not balance.
fn fixture() -> World {
    World {
        characters: CharacterOwner::seed([
            (CharacterId(1), Stamina::new(90).unwrap()),
            (CharacterId(2), Stamina::new(25).unwrap()),
            (CharacterId(3), Stamina::new(5).unwrap()),
        ])
        .unwrap(),
        economy: EconomyOwner::seed_sites([
            (SiteId(1), InfraTier::Established, ResourceKind::Fodder, MassGrams::new(2000)),
            (SiteId(2), InfraTier::Crude, ResourceKind::Timber, MassGrams::new(300)),
        ])
        .unwrap(),
        social: SocialOwner::seed_claims([
            (ClaimId(1), CharacterId(1), SiteId(1), true),
            (ClaimId(2), CharacterId(2), SiteId(2), true),
            (ClaimId(3), CharacterId(2), SiteId(1), false),
            (ClaimId(4), CharacterId(3), SiteId(2), true),
        ])
        .unwrap(),
    }
}

fn commands() -> Vec<Command> {
    let gather = |actor, claim, site| {
        Command::Gather(GatherCommand {
            actor: CharacterId(actor),
            claim: ClaimId(claim),
            site: SiteId(site),
        })
    };
    let witness = |witness, claim| {
        Command::Witness(WitnessCommand {
            witness: CharacterId(witness),
            claim: ClaimId(claim),
        })
    };
    vec![
        gather(1, 1, 1),
        gather(2, 2, 2),
        gather(2, 3, 1),
        gather(3, 4, 2),
        witness(1, 3),
    ]
}

fn run_fixture() -> (World, Vec<Command>, Vec<Receipt>, KindBaseline) {
    let mut world = fixture();
    validate_world_coherence(&world).unwrap();
    let baseline = baseline_by_kind(&world);
    let cmds = commands();
    let log: Vec<Receipt> = cmds
        .iter()
        .enumerate()
        .map(|(i, cmd)| submit(&mut world, i as u64 + 1, *cmd))
        .collect();
    (world, cmds, log, baseline)
}

#[test]
fn fixture_run_covers_accepted_partial_and_refused() {
    let (_, _, log, _) = run_fixture();
    assert_eq!(log[0].outcome, OutcomeKind::Accepted);
    assert_eq!(
        log[1].outcome,
        OutcomeKind::Partial(PartialReason::SiteNearlyDepleted)
    );
    assert_eq!(
        log[2].outcome,
        OutcomeKind::Refused(RefusalReason::ClaimNotWitnessed)
    );
    assert_eq!(
        log[3].outcome,
        OutcomeKind::Refused(RefusalReason::ActorExhausted)
    );
    assert_eq!(log[4].verb, Verb::Witness);
    assert_eq!(log[4].outcome, OutcomeKind::Accepted);
    assert!(!log[4].claim_witnessed, "claim was unwitnessed before the verb");
    assert_eq!(log[4].mass_moved, MassGrams::zero());
}

#[test]
fn all_ten_oracles_pass_on_the_fixture_run() {
    let (world, cmds, log, baseline) = run_fixture();
    let seeded = fixture();
    let ctx = OracleCtx {
        world: &world,
        baseline_by_kind: baseline,
        fixture: &seeded,
        commands: &cmds,
        log: &log,
    };
    let verdicts = run_all(&ctx);
    assert_eq!(verdicts.len(), ORACLE_COUNT);
    for verdict in &verdicts {
        assert!(verdict.pass, "{} failed: {}", verdict.name, verdict.detail);
    }
}

#[test]
fn every_receipt_carries_the_grammar_fingerprint() {
    let (_, _, log, _) = run_fixture();
    let fingerprint = grammar_fingerprint();
    assert!(log.iter().all(|r| r.grammar == fingerprint));
}

#[test]
fn dangling_claim_is_a_fixture_fault() {
    let world = World {
        characters: CharacterOwner::seed([(CharacterId(1), Stamina::new(90).unwrap())]).unwrap(),
        economy: EconomyOwner::seed_sites([(
            SiteId(1),
            InfraTier::Crude,
            ResourceKind::Fodder,
            MassGrams::new(100),
        )])
        .unwrap(),
        social: SocialOwner::seed_claims([(ClaimId(1), CharacterId(99), SiteId(1), true)]).unwrap(),
    };
    assert!(validate_world_coherence(&world).is_err());
}

#[test]
fn falsification_kind_swap_must_fail_conservation_at_equal_total() {
    let (world, cmds, log, baseline) = run_fixture();
    let mut swapped = baseline;
    swapped[ResourceKind::Fodder.index()] =
        MassGrams::new(baseline[ResourceKind::Fodder.index()].grams() + 300);
    swapped[ResourceKind::Timber.index()] =
        MassGrams::new(baseline[ResourceKind::Timber.index()].grams() - 300);
    let aggregate_before: u64 = baseline.iter().map(|m| m.grams()).sum();
    let aggregate_after: u64 = swapped.iter().map(|m| m.grams()).sum();
    assert_eq!(
        aggregate_before, aggregate_after,
        "the staged swap must be invisible to an aggregate-only check"
    );
    let seeded = fixture();
    let ctx = OracleCtx {
        world: &world,
        baseline_by_kind: swapped,
        fixture: &seeded,
        commands: &cmds,
        log: &log,
    };
    assert!(
        !mass_conserved(&ctx).pass,
        "a kind swap at an equal total passed conservation"
    );
}

#[test]
fn falsification_shadow_oracle_catches_a_mislabelled_kind() {
    let (world, cmds, mut log, baseline) = run_fixture();
    log[0].kind = Some(ResourceKind::Timber);
    let seeded = fixture();
    let ctx = OracleCtx {
        world: &world,
        baseline_by_kind: baseline,
        fixture: &seeded,
        commands: &cmds,
        log: &log,
    };
    assert!(cell_bounds(&ctx).pass);
    assert!(mass_conserved(&ctx).pass);
    assert!(
        !shadow_expectation(&ctx).pass,
        "a mislabelled kind survived the shadow evaluator"
    );
}

#[test]
fn mass_authority_gate_oracle_catches_a_doctored_receipt() {
    let (world, cmds, mut log, baseline) = run_fixture();
    log[0].claim_witnessed = false;
    let seeded = fixture();
    let ctx = OracleCtx {
        world: &world,
        baseline_by_kind: baseline,
        fixture: &seeded,
        commands: &cmds,
        log: &log,
    };
    assert!(!mass_authority_gate(&ctx).pass);
}

#[test]
fn falsification_shadow_oracle_catches_a_consistent_receipt_lie() {
    let (world, cmds, mut log, baseline) = run_fixture();
    log[0].band = Some(StaminaBand::Low);
    log[0].mass_moved = MassGrams::new(600);
    log[0].stamina_spent = 15;
    let seeded = fixture();
    let ctx = OracleCtx {
        world: &world,
        baseline_by_kind: baseline,
        fixture: &seeded,
        commands: &cmds,
        log: &log,
    };
    assert!(mass_authority_gate(&ctx).pass);
    assert!(exhausted_gate(&ctx).pass);
    assert!(closed_reasons(&ctx).pass);
    assert!(cell_bounds(&ctx).pass);
    assert!(!shadow_expectation(&ctx).pass);
}

#[test]
fn falsification_zero_mutation_oracle_catches_a_broken_chain() {
    let (world, cmds, mut log, baseline) = run_fixture();
    log[2].world_hash_after = log[2].world_hash_after.wrapping_add(1);
    let seeded = fixture();
    let ctx = OracleCtx {
        world: &world,
        baseline_by_kind: baseline,
        fixture: &seeded,
        commands: &cmds,
        log: &log,
    };
    assert!(!refusal_zero_mutation(&ctx).pass);
}

#[test]
fn receipt_chain_digest_is_reproducible_and_tamper_sensitive() {
    let (_, _, log_a, _) = run_fixture();
    let (_, _, log_b, _) = run_fixture();
    assert_eq!(receipt_chain_digest(&log_a), receipt_chain_digest(&log_b));
    let mut doctored = log_a.clone();
    doctored[0].stamina_spent += 1;
    assert_ne!(receipt_chain_digest(&log_a), receipt_chain_digest(&doctored));
}

#[test]
fn two_runs_produce_identical_hashes_and_receipts() {
    let (world_a, _, log_a, _) = run_fixture();
    let (world_b, _, log_b, _) = run_fixture();
    assert_eq!(world_a.hash(), world_b.hash());
    let lines_a: Vec<String> = log_a.iter().map(Receipt::canonical_line).collect();
    let lines_b: Vec<String> = log_b.iter().map(Receipt::canonical_line).collect();
    assert_eq!(lines_a, lines_b);
}

#[test]
fn falsification_divergent_final_world_must_fail_an_independent_oracle() {
    let (mut world, cmds, log, baseline) = run_fixture();
    submit(
        &mut world,
        99,
        Command::Gather(GatherCommand {
            actor: CharacterId(1),
            claim: ClaimId(1),
            site: SiteId(1),
        }),
    );
    let seeded = fixture();
    let ctx = OracleCtx {
        world: &world,
        baseline_by_kind: baseline,
        fixture: &seeded,
        commands: &cmds,
        log: &log,
    };
    let independent_failures = run_all(&ctx)
        .iter()
        .filter(|v| v.name != "replay_determinism" && !v.pass)
        .count();
    assert!(
        independent_failures > 0,
        "divergent final world was visible only to the self-trusting replay oracle"
    );
}

#[test]
fn oracle_details_name_their_counts() {
    let (world, cmds, log, baseline) = run_fixture();
    let seeded = fixture();
    let ctx = OracleCtx {
        world: &world,
        baseline_by_kind: baseline,
        fixture: &seeded,
        commands: &cmds,
        log: &log,
    };
    assert_eq!(stamina_in_bounds(&ctx).detail, "all stamina within 0..=100");
    assert_eq!(
        mass_authority_gate(&ctx).detail,
        "0 unwitnessed extractions, 0 unconsented transfers"
    );
    assert_eq!(
        mass_conserved(&ctx).detail,
        "fodder=2000g/2000g food=0g/0g timber=300g/300g total=2300g/2300g"
    );
    assert_eq!(
        shadow_final_state(&ctx).detail,
        "0 truth domains diverge from the shadow final state"
    );
    assert_eq!(ORACLE_SUITE_VERSION, 6);
}

#[test]
fn empty_receipt_chain_digest_is_the_offset_basis() {
    assert_eq!(receipt_chain_digest(&[]), 0xcbf2_9ce4_8422_2325);
}

#[test]
fn receipt_chain_digest_is_fnv_over_the_lines_in_order() {
    let mut world = fixture();
    let log = truth_layer::boundary::run_commands(&mut world, &commands());
    let mut hasher = truth_layer::boundary::Fnv1a::start();
    for receipt in &log {
        hasher.update(receipt.canonical_line().as_bytes());
    }
    assert_eq!(receipt_chain_digest(&log), hasher.finish());
    let copy: Vec<Receipt> = log.iter().copied().collect();
    assert_eq!(receipt_chain_digest(&copy), receipt_chain_digest(&log));
    let first = receipt_chain_digest(&log[..1]);
    let mut one = truth_layer::boundary::Fnv1a::start();
    one.update(log[0].canonical_line().as_bytes());
    assert_eq!(first, one.finish());
    assert_ne!(first, 0xcbf2_9ce4_8422_2325);
}
