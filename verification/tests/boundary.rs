use truth_layer::boundary::{
    command_encoding, command_encoding_fingerprint, fixture_identity, grammar_fingerprint,
    parse_text_command, plan_gather, receipt_format_fingerprint, submit, validate_world_coherence,
    CharacterId, CharacterOwner, ClaimId, Command, EconomyOwner, FixtureFault, Fnv1a, GatherCommand,
    GiveCommand, InfraTier, MassGrams, OutcomeKind, PartialReason, Receipt, RefusalReason,
    ResourceKind, SiteId, SocialOwner, Stamina, StaminaBand, TextCommandFault, Verb, WitnessCommand,
    World, KIND_COUNT, RECEIPT_FIELDS, STAMINA_COST_BY_BAND, YIELD_TABLE_GRAMS,
};

/// The pre-registered grammar identity.
const LICENSED_GRAMMAR_FINGERPRINT: u64 = 0x7dd8_c670_6e0b_949f;
/// The pre-registered canonical command-encoding identity.
const LICENSED_COMMAND_ENCODING_FINGERPRINT: u64 = 0xfa37_eefa_3594_cfe3;
/// The pre-registered canonical receipt-format identity.
const LICENSED_RECEIPT_FORMAT_FINGERPRINT: u64 = 0x7e62_1526_22bb_9132;

#[test]
fn stamina_rejects_out_of_range() {
    assert!(Stamina::new(101).is_none());
    assert!(Stamina::new(100).is_some());
}

#[test]
fn negative_mass_is_unrepresentable() {
    let small = MassGrams::new(5);
    let large = MassGrams::new(10);
    assert_eq!(small.checked_sub(large), None);
    assert_eq!(large.checked_sub(small), Some(MassGrams::new(5)));
}

#[test]
fn exact_spend_never_clamps() {
    let stamina = Stamina::new(12).unwrap();
    assert_eq!(stamina.spend_exact(15), None);
    assert_eq!(stamina.spend_exact(12), Stamina::new(0));
}

#[test]
fn bands_cover_full_stamina_range() {
    assert_eq!(Stamina::new(0).unwrap().band(), StaminaBand::Exhausted);
    assert_eq!(Stamina::new(9).unwrap().band(), StaminaBand::Exhausted);
    assert_eq!(Stamina::new(10).unwrap().band(), StaminaBand::Low);
    assert_eq!(Stamina::new(39).unwrap().band(), StaminaBand::Low);
    assert_eq!(Stamina::new(40).unwrap().band(), StaminaBand::Steady);
    assert_eq!(Stamina::new(79).unwrap().band(), StaminaBand::Steady);
    assert_eq!(Stamina::new(80).unwrap().band(), StaminaBand::Fresh);
    assert_eq!(Stamina::new(100).unwrap().band(), StaminaBand::Fresh);
}

#[test]
fn reason_codes_round_trip() {
    for reason in RefusalReason::ALL {
        assert_eq!(RefusalReason::from_code(reason.code()), Some(reason));
    }
    for reason in PartialReason::ALL {
        assert_eq!(PartialReason::from_code(reason.code()), Some(reason));
    }
}

#[test]
fn grammar_fingerprint_is_stable() {
    assert_eq!(grammar_fingerprint(), grammar_fingerprint());
}

#[test]
fn grammar_fingerprint_matches_the_licensed_value() {
    assert_eq!(
        grammar_fingerprint(),
        LICENSED_GRAMMAR_FINGERPRINT,
        "the grammar moved without a licensed, pre-registered move"
    );
}

#[test]
fn canonical_language_identities_match_their_licensed_values() {
    assert_eq!(
        command_encoding_fingerprint(),
        LICENSED_COMMAND_ENCODING_FINGERPRINT,
        "the canonical command encoding moved without a licensed, pre-registered move"
    );
    assert_eq!(
        receipt_format_fingerprint(),
        LICENSED_RECEIPT_FORMAT_FINGERPRINT,
        "the canonical receipt format moved without a licensed, pre-registered move"
    );
    assert_ne!(command_encoding_fingerprint(), receipt_format_fingerprint());
    assert_ne!(command_encoding_fingerprint(), grammar_fingerprint());
    assert_ne!(receipt_format_fingerprint(), grammar_fingerprint());
}

#[test]
fn command_encoding_matches_its_declaration() {
    let samples = [
        Command::Gather(GatherCommand {
            actor: CharacterId(1),
            claim: ClaimId(2),
            site: SiteId(3),
        }),
        Command::Witness(WitnessCommand {
            witness: CharacterId(1),
            claim: ClaimId(2),
        }),
        Command::Give(GiveCommand {
            giver: CharacterId(1),
            recipient: CharacterId(2),
            kind: ResourceKind::Food,
            grams: MassGrams::new(5),
            witness: Some(CharacterId(3)),
        }),
    ];
    for (sample, (verb, fields)) in samples.iter().zip(command_encoding()) {
        let bytes = sample.canonical_bytes();
        let declared: usize = verb.len()
            + fields
                .iter()
                .map(|(_, width)| *width as usize)
                .sum::<usize>();
        assert_eq!(
            bytes.len(),
            declared,
            "{verb} encodes {} bytes, declares {declared}",
            bytes.len()
        );
        assert!(bytes.starts_with(verb.as_bytes()), "{verb} prefix");
    }
    let silent = Command::Give(GiveCommand {
        giver: CharacterId(1),
        recipient: CharacterId(2),
        kind: ResourceKind::Food,
        grams: MassGrams::new(5),
        witness: None,
    });
    assert_eq!(
        silent.canonical_bytes().len(),
        samples[2].canonical_bytes().len() - 8
    );
}

/// A world where C1 already holds fodder and timber, so a transfer has
/// something to move. Mechanical numbers only.
fn give_world() -> World {
    let mut world = World {
        characters: CharacterOwner::seed([
            (CharacterId(1), Stamina::new(90).unwrap()),
            (CharacterId(2), Stamina::new(50).unwrap()),
            (CharacterId(3), Stamina::new(2).unwrap()),
            (CharacterId(4), Stamina::new(40).unwrap()),
        ])
        .unwrap(),
        economy: EconomyOwner::seed_sites([
            (SiteId(1), InfraTier::Established, ResourceKind::Fodder, MassGrams::new(5000)),
            (SiteId(2), InfraTier::Crude, ResourceKind::Timber, MassGrams::new(3000)),
        ])
        .unwrap(),
        social: SocialOwner::seed_claims([
            (ClaimId(1), CharacterId(1), SiteId(1), true),
            (ClaimId(2), CharacterId(1), SiteId(2), true),
        ])
        .unwrap(),
    };
    validate_world_coherence(&world).expect("give fixture is coherent");
    for (seq, claim, site) in [(1u64, 1u64, 1u64), (2, 2, 2)] {
        submit(
            &mut world,
            seq,
            Command::Gather(GatherCommand {
                actor: CharacterId(1),
                claim: ClaimId(claim),
                site: SiteId(site),
            }),
        );
    }
    world
}

fn give(giver: u64, to: u64, kind: ResourceKind, grams: u64, witness: Option<u64>) -> Command {
    Command::Give(GiveCommand {
        giver: CharacterId(giver),
        recipient: CharacterId(to),
        kind,
        grams: MassGrams::new(grams),
        witness: witness.map(CharacterId),
    })
}

#[test]
fn receipt_format_matches_its_declaration() {
    let mut world = give_world();
    let receipts = [
        submit(
            &mut world,
            1,
            Command::Gather(GatherCommand {
                actor: CharacterId(1),
                claim: ClaimId(1),
                site: SiteId(1),
            }),
        ),
        submit(
            &mut world,
            2,
            Command::Witness(WitnessCommand {
                witness: CharacterId(2),
                claim: ClaimId(1),
            }),
        ),
        submit(&mut world, 3, give(1, 2, ResourceKind::Fodder, 100, Some(3))),
    ];
    for receipt in receipts {
        let line = receipt.canonical_line();
        let names: Vec<&str> = line
            .split(' ')
            .map(|field| {
                field
                    .split_once('=')
                    .expect("every receipt field is name=value")
                    .0
            })
            .collect();
        assert_eq!(names, RECEIPT_FIELDS, "receipt field names or order drifted");
    }
}

#[test]
fn falsification_two_witnesses_must_produce_two_different_receipts() {
    let mut by_c3 = give_world();
    let mut by_c4 = give_world();
    let first = submit(&mut by_c3, 3, give(1, 2, ResourceKind::Fodder, 400, Some(3)));
    let second = submit(&mut by_c4, 3, give(1, 2, ResourceKind::Fodder, 400, Some(4)));
    assert_eq!(first.transfer_witness, Some(CharacterId(3)));
    assert_eq!(second.transfer_witness, Some(CharacterId(4)));
    assert_ne!(
        first.canonical_line(),
        second.canonical_line(),
        "two different attesters produced the same receipt"
    );
    assert!(first.canonical_line().contains(" transfer_witness=C3 "));
    assert!(second.canonical_line().contains(" transfer_witness=C4 "));
    assert_eq!(
        by_c3.canonical_state(),
        by_c4.canonical_state(),
        "naming a different witness changed canonical state"
    );
    assert_eq!(by_c3.hash(), by_c4.hash());
}

#[test]
fn claim_witnessing_and_transfer_witnessing_are_never_the_same_field() {
    let mut world = give_world();
    let gathered = submit(
        &mut world,
        1,
        Command::Gather(GatherCommand {
            actor: CharacterId(1),
            claim: ClaimId(1),
            site: SiteId(1),
        }),
    );
    assert!(gathered.claim_witnessed);
    assert_eq!(gathered.transfer_witness, None);

    let given = submit(&mut world, 2, give(1, 2, ResourceKind::Fodder, 100, Some(3)));
    assert!(
        !given.claim_witnessed,
        "a transfer acts through no claim and must never report one witnessed"
    );
    assert_eq!(given.transfer_witness, Some(CharacterId(3)));
}

#[test]
fn resource_kinds_are_a_closed_vocabulary() {
    let mut seen = [false; KIND_COUNT];
    for kind in ResourceKind::ALL {
        assert_eq!(ResourceKind::from_code(kind.code()), Some(kind));
        assert!(!kind.code().is_empty());
        assert!(!seen[kind.index()], "two kinds share an index");
        seen[kind.index()] = true;
    }
    assert!(seen.iter().all(|hit| *hit), "an index has no kind");
    assert_eq!(ResourceKind::from_code("turf"), None);
}

/// Two actors, two sites, both claims witnessed — the smallest world
/// where two plans can be fully independent.
fn two_actor_world() -> World {
    World {
        characters: CharacterOwner::seed([
            (CharacterId(1), Stamina::new(90).unwrap()),
            (CharacterId(2), Stamina::new(50).unwrap()),
        ])
        .unwrap(),
        economy: EconomyOwner::seed_sites([
            (SiteId(1), InfraTier::Established, ResourceKind::Fodder, MassGrams::new(5000)),
            (SiteId(2), InfraTier::Crude, ResourceKind::Timber, MassGrams::new(3000)),
        ])
        .unwrap(),
        social: SocialOwner::seed_claims([
            (ClaimId(1), CharacterId(1), SiteId(1), true),
            (ClaimId(2), CharacterId(2), SiteId(2), true),
            (ClaimId(3), CharacterId(2), SiteId(1), false),
        ])
        .unwrap(),
    }
}

#[test]
fn falsification_receipt_kind_is_bound_to_the_drained_site() {
    let mut world = two_actor_world();
    let fodder = submit(
        &mut world,
        1,
        Command::Gather(GatherCommand {
            actor: CharacterId(1),
            claim: ClaimId(1),
            site: SiteId(1),
        }),
    );
    let timber = submit(
        &mut world,
        2,
        Command::Gather(GatherCommand {
            actor: CharacterId(2),
            claim: ClaimId(2),
            site: SiteId(2),
        }),
    );
    assert_eq!(fodder.kind, Some(ResourceKind::Fodder));
    assert_eq!(timber.kind, Some(ResourceKind::Timber));
    assert!(fodder.canonical_line().contains(" kind=fodder "));
    assert!(timber.canonical_line().contains(" kind=timber "));
    assert_eq!(
        world.economy.holding(CharacterId(1), ResourceKind::Timber),
        MassGrams::zero(),
        "a fodder gather reached a timber holding"
    );
    assert_eq!(
        world.economy.holding(CharacterId(2), ResourceKind::Fodder),
        MassGrams::zero(),
        "a timber gather reached a fodder holding"
    );
}

#[test]
fn fixture_identity_is_order_and_input_sensitive() {
    let a = Command::Gather(GatherCommand {
        actor: CharacterId(1),
        claim: ClaimId(1),
        site: SiteId(1),
    });
    let b = Command::Witness(WitnessCommand {
        witness: CharacterId(2),
        claim: ClaimId(3),
    });
    assert_eq!(fixture_identity(7, &[a, b]), fixture_identity(7, &[a, b]));
    assert_ne!(fixture_identity(7, &[a, b]), fixture_identity(7, &[b, a]));
    assert_ne!(fixture_identity(7, &[a, b]), fixture_identity(8, &[a, b]));
}

#[test]
fn falsification_text_seam_rejects_leading_plus() {
    assert!(
        matches!(
            parse_text_command("gather actor=+1 claim=1 site=1"),
            Err(TextCommandFault::NonCanonicalInteger)
        ),
        "leading plus silently normalized before canonical command bytes"
    );
}

#[test]
fn text_seam_accepts_only_canonical_command_meaning() {
    let gather = Command::Gather(GatherCommand {
        actor: CharacterId(1),
        claim: ClaimId(2),
        site: SiteId(3),
    });
    let parsed_gather =
        parse_text_command("gather actor=1 claim=2 site=3").expect("canonical gather spelling");
    assert_eq!(parsed_gather.canonical_bytes(), gather.canonical_bytes());

    let witness = Command::Witness(WitnessCommand {
        witness: CharacterId(3),
        claim: ClaimId(8),
    });
    let parsed_witness =
        parse_text_command("witness witness=3 claim=8").expect("canonical witness spelling");
    assert_eq!(parsed_witness.canonical_bytes(), witness.canonical_bytes());

    let max = Command::Witness(WitnessCommand {
        witness: CharacterId(u64::MAX),
        claim: ClaimId(8),
    });
    let parsed_max = parse_text_command("witness witness=18446744073709551615 claim=8")
        .expect("u64::MAX has a canonical decimal spelling");
    assert_eq!(parsed_max.canonical_bytes(), max.canonical_bytes());
}

#[test]
fn text_seam_rejects_noncanonical_or_ambiguous_sources() {
    let cases = [
        ("", TextCommandFault::EmptyLine),
        ("dance actor=1 claim=1 site=1", TextCommandFault::UnknownVerb),
        ("gather actor=+1 claim=1 site=1", TextCommandFault::NonCanonicalInteger),
        ("gather actor=-1 claim=1 site=1", TextCommandFault::NonCanonicalInteger),
        ("gather actor=01 claim=1 site=1", TextCommandFault::NonCanonicalInteger),
        ("gather actor=\u{ff11} claim=1 site=1", TextCommandFault::NonAscii),
        (
            "gather actor=18446744073709551616 claim=1 site=1",
            TextCommandFault::IntegerOutOfRange,
        ),
        ("gather claim=1 actor=1 site=1", TextCommandFault::UnexpectedField),
        ("gather actor=1 actor=1 site=1", TextCommandFault::UnexpectedField),
        ("gather actor=1 claim=1 zone=1", TextCommandFault::UnexpectedField),
        ("gather actor=1 claim=1", TextCommandFault::WrongFieldCount),
        ("gather actor=1 claim=1 site=1 mode=fast", TextCommandFault::WrongFieldCount),
        ("gather actor= claim=1 site=1", TextCommandFault::EmptyValue),
        ("\u{feff}gather actor=1 claim=1 site=1", TextCommandFault::NonAscii),
        (" gather actor=1 claim=1 site=1", TextCommandFault::NonCanonicalWhitespace),
        ("gather actor=1  claim=1 site=1", TextCommandFault::NonCanonicalWhitespace),
        ("gather\tactor=1 claim=1 site=1", TextCommandFault::NonCanonicalWhitespace),
        ("gather actor=1 claim=1 site=1\n", TextCommandFault::NonCanonicalWhitespace),
    ];

    for (source, expected) in cases {
        assert!(
            matches!(parse_text_command(source), Err(actual) if actual == expected),
            "source {source:?} was not rejected as {expected:?}"
        );
    }
}

#[test]
fn fnv1a_is_stable() {
    let mut hasher = Fnv1a::default();
    hasher.update(b"truth");
    let first = hasher.finish();
    let mut again = Fnv1a::default();
    again.update(b"truth");
    assert_eq!(first, again.finish());
}

#[test]
fn falsification_overfull_mass_fixture_is_rejected() {
    let world = World {
        characters: CharacterOwner::seed([(CharacterId(1), Stamina::new(90).unwrap())]).unwrap(),
        economy: EconomyOwner::seed_sites([
            (SiteId(1), InfraTier::Established, ResourceKind::Fodder, MassGrams::new(u64::MAX)),
            (SiteId(2), InfraTier::Crude, ResourceKind::Fodder, MassGrams::new(1)),
        ])
        .unwrap(),
        social: SocialOwner::seed_claims([]).unwrap(),
    };
    assert_eq!(
        validate_world_coherence(&world),
        Err(FixtureFault::TotalMassOverflow)
    );
}

#[test]
fn falsification_canonical_state_must_see_every_domain_mutation() {
    let mut world = two_actor_world();
    let seeded = world.canonical_state();
    assert_eq!(
        seeded,
        two_actor_world().canonical_state(),
        "stable across identical construction"
    );
    submit(
        &mut world,
        1,
        Command::Gather(GatherCommand {
            actor: CharacterId(1),
            claim: ClaimId(1),
            site: SiteId(1),
        }),
    );
    let after_gather = world.canonical_state();
    assert_ne!(seeded, after_gather, "a gather must be visible");
    submit(
        &mut world,
        2,
        Command::Witness(WitnessCommand {
            witness: CharacterId(1),
            claim: ClaimId(3),
        }),
    );
    let after_witness = world.canonical_state();
    assert_ne!(after_gather, after_witness, "a witness must be visible");
}

fn active_cell_world(band: StaminaBand, tier: InfraTier, stock: u64) -> World {
    let points = match band {
        StaminaBand::Low => 39,
        StaminaBand::Steady => 79,
        StaminaBand::Fresh => 100,
        StaminaBand::Exhausted => {
            panic!("the exhausted row is gated before the yield lookup")
        }
    };
    let world = World {
        characters: CharacterOwner::seed([(
            CharacterId(1),
            Stamina::new(points).expect("representative stamina is in range"),
        )])
        .expect("one character is unique"),
        economy: EconomyOwner::seed_sites([(
            SiteId(1),
            tier,
            ResourceKind::Fodder,
            MassGrams::new(stock),
        )])
        .expect("one site is unique"),
        social: SocialOwner::seed_claims([(ClaimId(1), CharacterId(1), SiteId(1), true)])
            .expect("one claim is unique"),
    };
    validate_world_coherence(&world).expect("purpose-built cell fixture is coherent");
    world
}

fn submit_active_cell(world: &mut World) -> Receipt {
    submit(
        world,
        1,
        Command::Gather(GatherCommand {
            actor: CharacterId(1),
            claim: ClaimId(1),
            site: SiteId(1),
        }),
    )
}

fn assert_cell_mass_state(world: &World, expected_inventory: u64, expected_stock: u64) {
    assert_eq!(
        world.economy.holding(CharacterId(1), ResourceKind::Fodder),
        MassGrams::new(expected_inventory)
    );
    let remaining_stock = world
        .economy
        .sites_iter()
        .into_iter()
        .next()
        .map(|(_, _, _, stock)| stock)
        .expect("the purpose-built site exists");
    assert_eq!(remaining_stock, MassGrams::new(expected_stock));
}

#[test]
fn falsification_all_active_cells_are_reachable() {
    let bands = [StaminaBand::Low, StaminaBand::Steady, StaminaBand::Fresh];
    let tiers = [
        InfraTier::NoInfrastructure,
        InfraTier::Crude,
        InfraTier::Established,
        InfraTier::Advanced,
    ];
    let mut cells_reached = 0;
    let mut full_cases = 0;
    let mut partial_cases = 0;
    let mut partial_boundaries = 0;
    let mut empty_cases = 0;

    for band in bands {
        for tier in tiers {
            let expected_yield = YIELD_TABLE_GRAMS[band.index()][tier.index()];
            let expected_cost = STAMINA_COST_BY_BAND[band.index()];

            let full_stock = expected_yield.max(1);
            let mut full_world = active_cell_world(band, tier, full_stock);
            let full = submit_active_cell(&mut full_world);
            assert_eq!(
                full.outcome,
                OutcomeKind::Accepted,
                "exact-full cell {}/{}",
                band.code(),
                tier.code()
            );
            assert_eq!(full.band, Some(band));
            assert_eq!(full.tier, Some(tier));
            assert_eq!(full.stamina_spent, expected_cost);
            assert_eq!(full.mass_moved, MassGrams::new(expected_yield));
            assert_cell_mass_state(&full_world, expected_yield, full_stock - expected_yield);
            assert_eq!(full_world.economy.total_mass(), MassGrams::new(full_stock));
            full_cases += 1;

            let partial_stock = expected_yield.checked_sub(1).filter(|stock| *stock > 0);
            if let Some(partial_stock) = partial_stock {
                partial_boundaries += 1;
                let mut partial_world = active_cell_world(band, tier, partial_stock);
                let partial = submit_active_cell(&mut partial_world);
                assert_eq!(
                    partial.outcome,
                    OutcomeKind::Partial(PartialReason::SiteNearlyDepleted),
                    "one-short cell {}/{}",
                    band.code(),
                    tier.code()
                );
                assert_eq!(partial.band, Some(band));
                assert_eq!(partial.tier, Some(tier));
                assert_eq!(partial.stamina_spent, expected_cost);
                assert_eq!(partial.mass_moved, MassGrams::new(partial_stock));
                assert_cell_mass_state(&partial_world, partial_stock, 0);
                assert_eq!(
                    partial_world.economy.total_mass(),
                    MassGrams::new(partial_stock)
                );
                partial_cases += 1;
            }

            let mut empty_world = active_cell_world(band, tier, 0);
            let empty_before = empty_world.canonical_state();
            let empty = submit_active_cell(&mut empty_world);
            assert_eq!(
                empty.outcome,
                OutcomeKind::Refused(RefusalReason::SiteEmpty),
                "empty cell {}/{}",
                band.code(),
                tier.code()
            );
            assert_eq!(empty.band, Some(band));
            assert_eq!(empty.tier, Some(tier));
            assert_eq!(empty.stamina_spent, 0);
            assert_eq!(empty.mass_moved, MassGrams::zero());
            assert_eq!(empty_world.canonical_state(), empty_before);
            empty_cases += 1;
            cells_reached += 1;
        }
    }

    assert_eq!(cells_reached, 12);
    assert_eq!(full_cases, 12);
    assert_eq!(partial_cases, partial_boundaries);
    assert_eq!(empty_cases, 12);
}

#[test]
fn falsification_independent_plans_against_one_snapshot_must_both_commit() {
    let mut world = two_actor_world();
    let plan_a = plan_gather(
        &world,
        &GatherCommand {
            actor: CharacterId(1),
            claim: ClaimId(1),
            site: SiteId(1),
        },
    )
    .expect("plan A validates");
    let plan_b = plan_gather(
        &world,
        &GatherCommand {
            actor: CharacterId(2),
            claim: ClaimId(2),
            site: SiteId(2),
        },
    )
    .expect("plan B validates against the same snapshot");
    plan_a.apply(&mut world);
    plan_b.apply(&mut world);
    assert_eq!(world.characters.stamina(CharacterId(1)).unwrap().points(), 80);
    assert_eq!(world.characters.stamina(CharacterId(2)).unwrap().points(), 38);
    assert_eq!(
        world.economy.holding(CharacterId(1), ResourceKind::Fodder),
        MassGrams::new(1800)
    );
    assert_eq!(
        world.economy.holding(CharacterId(2), ResourceKind::Timber),
        MassGrams::new(800)
    );
}

#[test]
fn trial_013_low_actionability_training_does_not_select_meaning() {
    struct Expected {
        start: u8,
        band: StaminaBand,
        table_cost: u8,
        outcome: &'static str,
        reason: &'static str,
        spent: u8,
        mass: u64,
        post: u8,
        mutated: bool,
    }

    let expected = [
        Expected {
            start: 9,
            band: StaminaBand::Exhausted,
            table_cost: 0,
            outcome: "refused",
            reason: "actor_exhausted",
            spent: 0,
            mass: 0,
            post: 9,
            mutated: false,
        },
        Expected {
            start: 10,
            band: StaminaBand::Low,
            table_cost: 15,
            outcome: "refused",
            reason: "insufficient_stamina",
            spent: 0,
            mass: 0,
            post: 10,
            mutated: false,
        },
        Expected {
            start: 14,
            band: StaminaBand::Low,
            table_cost: 15,
            outcome: "refused",
            reason: "insufficient_stamina",
            spent: 0,
            mass: 0,
            post: 14,
            mutated: false,
        },
        Expected {
            start: 15,
            band: StaminaBand::Low,
            table_cost: 15,
            outcome: "accepted",
            reason: "-",
            spent: 15,
            mass: 600,
            post: 0,
            mutated: true,
        },
    ];

    let mut accepted_low = 0;
    let mut low_spent = 0_u64;
    let mut low_mass = 0_u64;
    for expected in expected {
        let mut world = World {
            characters: CharacterOwner::seed([(
                CharacterId(1),
                Stamina::new(expected.start).unwrap(),
            )])
            .unwrap(),
            economy: EconomyOwner::seed_sites([(
                SiteId(1),
                InfraTier::Established,
                ResourceKind::Fodder,
                MassGrams::new(10_000),
            )])
            .unwrap(),
            social: SocialOwner::seed_claims([(ClaimId(1), CharacterId(1), SiteId(1), true)])
                .unwrap(),
        };
        validate_world_coherence(&world).unwrap();
        let before_hash = world.hash();
        let stamina = world.characters.stamina(CharacterId(1)).unwrap();
        let band = stamina.band();
        let table_cost = STAMINA_COST_BY_BAND[band.index()];
        let receipt = submit(
            &mut world,
            1,
            Command::Gather(GatherCommand {
                actor: CharacterId(1),
                claim: ClaimId(1),
                site: SiteId(1),
            }),
        );
        let post = world.characters.stamina(CharacterId(1)).unwrap().points();
        let mutated = before_hash != world.hash();

        assert_eq!(band, expected.band);
        assert_eq!(table_cost, expected.table_cost);
        assert_eq!(receipt.outcome.code(), expected.outcome);
        assert_eq!(receipt.outcome.reason_code(), expected.reason);
        assert_eq!(receipt.stamina_spent, expected.spent);
        assert_eq!(receipt.mass_moved.grams(), expected.mass);
        assert_eq!(post, expected.post);
        assert_eq!(mutated, expected.mutated);

        if band == StaminaBand::Low {
            accepted_low += usize::from(receipt.outcome == OutcomeKind::Accepted);
            low_spent += u64::from(receipt.stamina_spent);
            low_mass += receipt.mass_moved.grams();
        }
    }

    assert_eq!(accepted_low, 1);
    assert_eq!(low_spent, 15);
    assert_eq!(low_mass, 600);
}

#[test]
fn falsification_give_conserves_the_transferred_kind() {
    let mut world = give_world();
    let before_total = world.economy.total_mass();
    let before_giver = world.economy.holding(CharacterId(1), ResourceKind::Fodder);
    let receipt = submit(&mut world, 3, give(1, 2, ResourceKind::Fodder, 500, None));
    assert_eq!(receipt.outcome, OutcomeKind::Accepted);
    assert_eq!(receipt.verb, Verb::Give);
    assert_eq!(receipt.mass_moved, MassGrams::new(500));
    assert_eq!(receipt.kind, Some(ResourceKind::Fodder));
    assert_eq!(receipt.recipient, Some(CharacterId(2)));
    assert_eq!(
        world.economy.holding(CharacterId(1), ResourceKind::Fodder),
        MassGrams::new(before_giver.grams() - 500)
    );
    assert_eq!(
        world.economy.holding(CharacterId(2), ResourceKind::Fodder),
        MassGrams::new(500)
    );
    assert_eq!(world.economy.total_mass(), before_total);
}

#[test]
fn falsification_give_debits_only_the_commands_named_source() {
    let mut world = give_world();
    let before_c3 = world.economy.holding(CharacterId(3), ResourceKind::Timber);
    let receipt = submit(&mut world, 3, give(1, 2, ResourceKind::Timber, 100, Some(3)));
    assert_eq!(receipt.outcome, OutcomeKind::Accepted);
    assert_eq!(receipt.actor, CharacterId(1), "the actor is the giver");
    assert_eq!(
        world.economy.holding(CharacterId(3), ResourceKind::Timber),
        before_c3,
        "a named witness paid mass for someone else's act"
    );
    assert_eq!(
        world.characters.stamina(CharacterId(3)).unwrap().points(),
        2,
        "a named witness paid stamina for someone else's act"
    );
}

#[test]
fn falsification_give_refusals_are_closed_and_byte_stable() {
    let mut world = give_world();
    let held = world
        .economy
        .holding(CharacterId(1), ResourceKind::Fodder)
        .grams();
    let cases = [
        (give(1, 1, ResourceKind::Fodder, 10, None), RefusalReason::CannotGiveToSelf),
        (give(1, 9, ResourceKind::Fodder, 10, None), RefusalReason::UnknownRecipient),
        (give(1, 2, ResourceKind::Fodder, 10, Some(9)), RefusalReason::UnknownWitness),
        (give(1, 2, ResourceKind::Fodder, 10, Some(2)), RefusalReason::WitnessIsParty),
        (give(1, 2, ResourceKind::Fodder, 0, None), RefusalReason::EmptyTransfer),
        (give(1, 2, ResourceKind::Fodder, held + 1, None), RefusalReason::InsufficientHolding),
        (give(1, 2, ResourceKind::Food, 1, None), RefusalReason::InsufficientHolding),
        (give(9, 2, ResourceKind::Fodder, 10, None), RefusalReason::UnknownActor),
        (give(3, 2, ResourceKind::Fodder, 10, None), RefusalReason::InsufficientStamina),
    ];
    for (cmd, expected) in cases {
        let before = world.hash();
        let receipt = submit(&mut world, 3, cmd);
        assert_eq!(
            receipt.outcome,
            OutcomeKind::Refused(expected),
            "wrong reason for {:?}",
            receipt.canonical_line()
        );
        assert_eq!(receipt.stamina_spent, 0);
        assert_eq!(receipt.mass_moved, MassGrams::zero());
        assert_eq!(world.hash(), before, "a refused give mutated the world");
    }
}

#[test]
fn falsification_witnessing_a_give_is_receipted_but_never_stateful() {
    let mut witnessed_world = give_world();
    let mut silent_world = give_world();
    let witnessed = submit(
        &mut witnessed_world,
        3,
        give(1, 2, ResourceKind::Fodder, 400, Some(3)),
    );
    let silent = submit(&mut silent_world, 3, give(1, 2, ResourceKind::Fodder, 400, None));
    assert_eq!(witnessed.transfer_witness, Some(CharacterId(3)));
    assert_eq!(silent.transfer_witness, None);
    assert_ne!(witnessed.canonical_line(), silent.canonical_line());
    assert_eq!(
        witnessed_world.canonical_state(),
        silent_world.canonical_state(),
        "witnessing changed canonical state"
    );
    assert_eq!(witnessed_world.hash(), silent_world.hash());
}

#[test]
fn falsification_giving_everything_erases_the_holding_completely() {
    let mut world = give_world();
    let all = world
        .economy
        .holding(CharacterId(1), ResourceKind::Timber)
        .grams();
    let receipt = submit(&mut world, 3, give(1, 2, ResourceKind::Timber, all, None));
    assert_eq!(receipt.outcome, OutcomeKind::Accepted);
    assert_eq!(
        world.economy.holding(CharacterId(1), ResourceKind::Timber),
        MassGrams::zero()
    );
    assert!(
        world
            .economy
            .holdings_iter()
            .into_iter()
            .all(|(id, kind, _)| !(id == CharacterId(1) && kind == ResourceKind::Timber)),
        "an emptied holding stayed in the map"
    );
    assert!(
        world
            .canonical_state()
            .iter()
            .any(|line| line.starts_with("character C1 ") && line.contains("timber_g=0")),
        "the canonical line must still print the kind, at zero"
    );
}

#[test]
fn text_seam_accepts_the_give_spelling() {
    let witnessed = Command::Give(GiveCommand {
        giver: CharacterId(1),
        recipient: CharacterId(2),
        kind: ResourceKind::Fodder,
        grams: MassGrams::new(500),
        witness: Some(CharacterId(3)),
    });
    let parsed = parse_text_command("give giver=1 to=2 kind=fodder g=500 witness=3")
        .expect("canonical give spelling");
    assert_eq!(parsed.canonical_bytes(), witnessed.canonical_bytes());

    let silent = Command::Give(GiveCommand {
        giver: CharacterId(1),
        recipient: CharacterId(2),
        kind: ResourceKind::Fodder,
        grams: MassGrams::new(500),
        witness: None,
    });
    let parsed_silent = parse_text_command("give giver=1 to=2 kind=fodder g=500 witness=-")
        .expect("canonical unwitnessed give spelling");
    assert_eq!(parsed_silent.canonical_bytes(), silent.canonical_bytes());
    assert_ne!(silent.canonical_bytes(), witnessed.canonical_bytes());

    for (source, expected) in [
        ("give giver=1 to=2 kind=turf g=500 witness=-", TextCommandFault::UnknownKind),
        (
            "give giver=1 to=2 kind=fodder g=+500 witness=-",
            TextCommandFault::NonCanonicalInteger,
        ),
        ("give giver=1 to=2 kind=fodder g=500", TextCommandFault::WrongFieldCount),
        ("give giver=1 to=2 kind=fodder g=500 witness=", TextCommandFault::EmptyValue),
    ] {
        assert!(
            matches!(parse_text_command(source), Err(actual) if actual == expected),
            "source {source:?} was not rejected as {expected:?}"
        );
    }
}
