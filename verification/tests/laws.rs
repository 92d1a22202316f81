use truth_layer::boundary::{
    run_commands, submit, validate_world_coherence, CharacterId, ClaimId, Command, GatherCommand,
    GiveCommand, MassGrams, OutcomeKind, RefusalReason, ResourceKind, SiteId, Verb, WitnessCommand,
    YIELD_TABLE_GRAMS,
};
use truth_layer::oracles::{baseline_by_kind, run_all, OracleCtx};
use truth_layer::trial::{commands, current_identities, fixture, hex};

#[test]
fn refused_commands_leave_the_hash_where_it_was() {
    let mut world = fixture();
    let before = world.canonical_state();
    let receipt = submit(
        &mut world,
        1,
        Command::Gather(GatherCommand {
            actor: CharacterId(3),
            claim: ClaimId(4),
            site: SiteId(2),
        }),
    );
    assert_eq!(receipt.outcome, OutcomeKind::Refused(RefusalReason::ActorExhausted));
    assert_eq!(receipt.world_hash_before, receipt.world_hash_after);
    assert_eq!(receipt.mass_moved, MassGrams::zero());
    assert_eq!(receipt.stamina_spent, 0);
    assert_eq!(world.canonical_state(), before);
}

#[test]
fn the_standard_trial_conserves_every_kind() {
    let mut world = fixture();
    let before = baseline_by_kind(&world);
    let log = run_commands(&mut world, &commands());
    assert_eq!(log.len(), 16);
    assert_eq!(baseline_by_kind(&world), before);
    assert_eq!(world.economy.total_mass(), MassGrams::new(8_300));
}

#[test]
fn every_accepted_gather_moves_its_cell_and_every_gather_through_goes_through_a_witnessed_claim() {
    let mut world = fixture();
    let log = run_commands(&mut world, &commands());
    for receipt in &log {
        if receipt.verb == Verb::Gather && receipt.outcome.yields_mass() {
            assert!(receipt.claim_witnessed);
            let cell = YIELD_TABLE_GRAMS[receipt.band.unwrap().index()][receipt.tier.unwrap().index()];
            match receipt.outcome {
                OutcomeKind::Accepted => assert_eq!(receipt.mass_moved.grams(), cell),
                _ => assert!(receipt.mass_moved.grams() > 0 && receipt.mass_moved.grams() < cell),
            }
        }
    }
}

#[test]
fn the_standard_trial_passes_all_ten_oracles() {
    let seeded = fixture();
    validate_world_coherence(&seeded).unwrap();
    let mut world = fixture();
    let cmds = commands();
    let log = run_commands(&mut world, &cmds);
    let ctx = OracleCtx {
        world: &world,
        baseline_by_kind: baseline_by_kind(&seeded),
        fixture: &seeded,
        commands: &cmds,
        log: &log,
    };
    for verdict in &run_all(&ctx) {
        assert!(verdict.pass, "{} failed: {}", verdict.name, verdict.detail);
    }
}

#[test]
fn a_named_witness_pays_nothing_and_changes_nothing() {
    let mut world = fixture();
    run_commands(&mut world, &commands()[..1]);
    let witness_before = world.characters.stamina(CharacterId(2)).unwrap();
    let receipt = submit(
        &mut world,
        2,
        Command::Give(GiveCommand {
            giver: CharacterId(1),
            recipient: CharacterId(4),
            kind: ResourceKind::Fodder,
            grams: MassGrams::new(100),
            witness: Some(CharacterId(2)),
        }),
    );
    assert_eq!(receipt.outcome, OutcomeKind::Accepted);
    assert_eq!(world.characters.stamina(CharacterId(2)).unwrap(), witness_before);
    assert_eq!(world.economy.holding(CharacterId(2), ResourceKind::Fodder), MassGrams::zero());
    assert_eq!(world.economy.holding(CharacterId(4), ResourceKind::Fodder), MassGrams::new(100));
    assert_eq!(world.characters.stamina(CharacterId(1)).unwrap().points(), 77);
}

#[test]
fn a_claim_is_witnessed_once() {
    let mut world = fixture();
    let first = submit(
        &mut world,
        1,
        Command::Witness(WitnessCommand {
            witness: CharacterId(1),
            claim: ClaimId(3),
        }),
    );
    assert_eq!(first.outcome, OutcomeKind::Accepted);
    assert_eq!(world.social.is_witnessed(ClaimId(3)), Some(true));
    let again = submit(
        &mut world,
        2,
        Command::Witness(WitnessCommand {
            witness: CharacterId(4),
            claim: ClaimId(3),
        }),
    );
    assert_eq!(
        again.outcome,
        OutcomeKind::Refused(RefusalReason::ClaimAlreadyWitnessed)
    );
}

#[test]
fn identities_are_recomputed_from_a_run() {
    let ids = current_identities();
    assert_eq!(ids[0], hex(truth_layer::grammar::grammar_fingerprint()));
    assert_eq!(ids[6], "oracles=10v6");
    assert_eq!(hex(0xab), "0x00000000000000ab");
    assert_eq!(current_identities(), ids);
}

#[test]
fn an_absent_witness_and_witness_zero_never_share_an_encoding() {
    let give = |witness| {
        Command::Give(GiveCommand {
            giver: CharacterId(1),
            recipient: CharacterId(2),
            kind: ResourceKind::Food,
            grams: MassGrams::new(5),
            witness,
        })
    };
    let silent = give(None).canonical_bytes();
    let zero = give(Some(CharacterId(0))).canonical_bytes();
    assert_ne!(silent, zero);
    assert_eq!(silent.len(), 30);
    assert_eq!(zero.len(), 38);
    let gather = Command::Gather(GatherCommand {
        actor: CharacterId(1),
        claim: ClaimId(2),
        site: SiteId(3),
    })
    .canonical_bytes();
    let swapped = Command::Gather(GatherCommand {
        actor: CharacterId(1),
        claim: ClaimId(3),
        site: SiteId(2),
    })
    .canonical_bytes();
    assert_ne!(gather, swapped);
}

#[test]
fn a_run_with_transfers_passes_all_ten_oracles() {
    let seeded = fixture();
    let mut world = fixture();
    let mut cmds = commands();
    cmds.push(Command::Give(GiveCommand {
        giver: CharacterId(1),
        recipient: CharacterId(2),
        kind: ResourceKind::Fodder,
        grams: MassGrams::new(100),
        witness: Some(CharacterId(4)),
    }));
    cmds.push(Command::Give(GiveCommand {
        giver: CharacterId(2),
        recipient: CharacterId(1),
        kind: ResourceKind::Timber,
        grams: MassGrams::new(1),
        witness: None,
    }));
    let log = run_commands(&mut world, &cmds);
    assert_eq!(log[16].outcome, OutcomeKind::Accepted);
    assert_eq!(log[17].verb, Verb::Give);
    let ctx = OracleCtx {
        world: &world,
        baseline_by_kind: baseline_by_kind(&seeded),
        fixture: &seeded,
        commands: &cmds,
        log: &log,
    };
    for verdict in &run_all(&ctx) {
        assert!(verdict.pass, "{} failed: {}", verdict.name, verdict.detail);
    }
}

/// The second word of every canonical line of the given kind: the ids.
fn ids_of(lines: &[String], kind: &str) -> Vec<String> {
    lines
        .iter()
        .filter(|line| line.starts_with(kind))
        .map(|line| line.split(' ').nth(1).unwrap().to_string())
        .collect()
}

#[test]
fn the_standard_trial_keeps_every_id_and_every_witness() {
    let mut world = fixture();
    let before = world.canonical_state();
    run_commands(&mut world, &commands());
    let after = world.canonical_state();
    for kind in ["character ", "site ", "claim "] {
        assert_eq!(ids_of(&before, kind), ids_of(&after, kind));
    }
    let mut witnessed_before = 0;
    for line in before.iter().filter(|l| l.starts_with("claim ") && l.ends_with("witnessed=true")) {
        let id = line.split(' ').nth(1).unwrap();
        let later = after
            .iter()
            .find(|l| l.starts_with("claim ") && l.split(' ').nth(1) == Some(id))
            .unwrap();
        assert!(later.ends_with("witnessed=true"));
        witnessed_before += 1;
    }
    assert!(witnessed_before > 0);
}
