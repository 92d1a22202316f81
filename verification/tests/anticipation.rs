use truth_layer::anticipation::{
    bounded_modifier, drive_modifier, evaluate_and_seal, legal_intent_set_hash, semantic_intents,
    AnticipationBeliefs, BeliefRecord, Drive, IntentKind, ValidatedIntent, DRIVE_MODIFIER_CAP,
};
use truth_layer::boundary::{
    submit, validate_world_coherence, CharacterId, CharacterOwner, ClaimId, Command, EconomyOwner,
    GatherCommand, InfraTier, MassGrams, OutcomeKind, Receipt, RefusalReason, ResourceKind, SiteId,
    SocialOwner, Stamina, World,
};

fn gather_receipt(start: u8, tier: InfraTier) -> Receipt {
    let mut world = World {
        characters: CharacterOwner::seed([(
            CharacterId(1),
            Stamina::new(start).expect("trial start is bounded"),
        )])
        .expect("one unique character"),
        economy: EconomyOwner::seed_sites([(
            SiteId(1),
            tier,
            ResourceKind::Fodder,
            MassGrams::new(10_000),
        )])
        .expect("one unique site"),
        social: SocialOwner::seed_claims([(ClaimId(1), CharacterId(1), SiteId(1), true)])
            .expect("one coherent witnessed claim"),
    };
    validate_world_coherence(&world).expect("trial fixture is coherent");
    submit(
        &mut world,
        1,
        Command::Gather(GatherCommand {
            actor: CharacterId(1),
            claim: ClaimId(1),
            site: SiteId(1),
        }),
    )
}

fn low_dead_zone_receipts() -> Vec<String> {
    (10..=14)
        .map(|start| {
            let receipt = gather_receipt(start, InfraTier::Established);
            assert_eq!(
                receipt.outcome,
                OutcomeKind::Refused(RefusalReason::InsufficientStamina)
            );
            assert_eq!(receipt.stamina_spent, 0);
            assert_eq!(receipt.mass_moved, MassGrams::zero());
            assert_eq!(receipt.world_hash_before, receipt.world_hash_after);
            receipt.canonical_line()
        })
        .collect()
}

#[test]
fn trial_014_drive_only_selection_is_capped_and_membership_preserving() {
    let cheap_receipt = gather_receipt(100, InfraTier::NoInfrastructure);
    let costly_receipt = gather_receipt(79, InfraTier::Advanced);
    assert_eq!(cheap_receipt.outcome, OutcomeKind::Accepted);
    assert_eq!(costly_receipt.outcome, OutcomeKind::Accepted);

    let intents = [
        ValidatedIntent::from_receipt(&cheap_receipt).expect("accepted cheap intent is legal"),
        ValidatedIntent::from_receipt(&costly_receipt).expect("accepted costly intent is legal"),
    ];
    assert!(intents[0].committed_cost < intents[1].committed_cost);
    assert!(intents[0].committed_yield < intents[1].committed_yield);

    let legal_bytes_before = intents.map(ValidatedIntent::committed_bytes);
    let legal_hash_before = legal_intent_set_hash(&intents);
    let refusals_before = low_dead_zone_receipts();

    let beliefs = AnticipationBeliefs::seed([
        BeliefRecord::new(CharacterId(101), Drive::Bad),
        BeliefRecord::new(CharacterId(102), Drive::Average),
        BeliefRecord::new(CharacterId(103), Drive::Good),
        BeliefRecord::new(CharacterId(104), Drive::Superb),
    ])
    .expect("one belief record per agent");

    let cases = [
        (CharacterId(101), Drive::Bad, IntentKind::Cheap),
        (CharacterId(102), Drive::Average, IntentKind::Cheap),
        (CharacterId(103), Drive::Good, IntentKind::Costly),
        (CharacterId(104), Drive::Superb, IntentKind::Costly),
    ];

    assert_eq!(DRIVE_MODIFIER_CAP, 1);
    assert_eq!(bounded_modifier(-2), None);
    assert_eq!(bounded_modifier(-1), Some(-1));
    assert_eq!(bounded_modifier(1), Some(1));
    assert_eq!(bounded_modifier(2), None);
    let reversed_intents = [intents[1], intents[0]];
    for (agent, drive, expected) in cases {
        let evaluated = evaluate_and_seal(&beliefs, agent, &intents)
            .expect("agent has an anticipation belief");
        let replay =
            evaluate_and_seal(&beliefs, agent, &intents).expect("pure evaluation replays");
        let reversed = evaluate_and_seal(&beliefs, agent, &reversed_intents)
            .expect("input order does not change semantic validity");

        assert_eq!(evaluated, replay, "belief-only evaluation must be pure");
        assert_eq!(
            reversed, evaluated,
            "semantic selection and set identity must ignore input order"
        );
        assert_eq!(evaluated.receipt.drive, drive);
        assert_eq!(evaluated.receipt.selected, expected);
        assert_eq!(evaluated.receipt.legal_intent_set_hash, legal_hash_before);
        assert!(evaluated
            .receipt
            .modifiers
            .iter()
            .all(|modifier| modifier.abs() <= DRIVE_MODIFIER_CAP));
        assert_eq!(
            evaluated.plan.committed_intent,
            intents[expected.index()].committed_bytes()
        );
        assert_eq!(evaluated.plan.evaluation_receipt_hash, evaluated.receipt.hash());
    }

    assert_eq!(
        legal_intent_set_hash(&reversed_intents),
        legal_hash_before,
        "set identity must ignore input order",
    );

    let legal_bytes_after = intents.map(ValidatedIntent::committed_bytes);
    let refusals_after = low_dead_zone_receipts();
    assert_eq!(legal_bytes_after, legal_bytes_before);
    assert_eq!(legal_intent_set_hash(&intents), legal_hash_before);
    assert_eq!(refusals_after, refusals_before);
}

#[test]
fn ties_and_crossed_trade_offs_have_no_semantic_roles() {
    let a = ValidatedIntent { committed_cost: 10, committed_yield: 600 };
    let b = ValidatedIntent { committed_cost: 12, committed_yield: 500 };
    assert_eq!(semantic_intents(&[a, b]), None);
    assert_eq!(semantic_intents(&[a, a]), None);
    let c = ValidatedIntent { committed_cost: 12, committed_yield: 700 };
    assert_eq!(semantic_intents(&[c, a]), Some([a, c]));
}

#[test]
fn duplicate_agents_and_unknown_agents_fail_closed() {
    assert!(AnticipationBeliefs::seed([
        BeliefRecord::new(CharacterId(1), Drive::Bad),
        BeliefRecord::new(CharacterId(1), Drive::Good),
    ])
    .is_none());
    let beliefs = AnticipationBeliefs::seed([BeliefRecord::new(CharacterId(1), Drive::Good)]).unwrap();
    let a = ValidatedIntent { committed_cost: 10, committed_yield: 600 };
    let c = ValidatedIntent { committed_cost: 12, committed_yield: 700 };
    assert!(evaluate_and_seal(&beliefs, CharacterId(2), &[a, c]).is_none());
    assert_eq!(
        drive_modifier(BeliefRecord::new(CharacterId(1), Drive::Bad), IntentKind::Costly),
        Some(-1)
    );
    let evaluated = evaluate_and_seal(&beliefs, CharacterId(1), &[a, c]).unwrap();
    assert_eq!(
        evaluated.receipt.canonical_line(),
        format!(
            "agent=C1 drive=good legal_intents=0x{:016x} cheap_modifier=0 costly_modifier=1 selected=costly cap=1",
            legal_intent_set_hash(&[a, c])
        )
    );
}
