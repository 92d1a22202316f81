use truth_layer::boundary::{
    CharacterId, CharacterOwner, ClaimId, EconomyOwner, FixtureFault, Fnv1a, InfraTier, MassGrams,
    RefusalReason, ResourceKind, SiteId, SocialOwner, Stamina,
};

// ---------------------------------------------------------------------------
// Character owner
// ---------------------------------------------------------------------------

fn character_owner() -> CharacterOwner {
    CharacterOwner::seed([
        (CharacterId(1), Stamina::new(90).unwrap()),
        (CharacterId(3), Stamina::new(5).unwrap()),
    ])
    .unwrap()
}

#[test]
fn duplicate_seed_id_is_a_fixture_fault() {
    let result = CharacterOwner::seed([
        (CharacterId(1), Stamina::new(90).unwrap()),
        (CharacterId(1), Stamina::new(10).unwrap()),
    ]);
    assert_eq!(
        result.err(),
        Some(FixtureFault::DuplicateCharacter(CharacterId(1)))
    );
}

#[test]
fn unknown_actor_is_refused() {
    assert_eq!(
        character_owner().validate_spend(CharacterId(99), 10).err(),
        Some(RefusalReason::UnknownActor)
    );
}

#[test]
fn falsification_low_headroom_must_be_refused() {
    let owner = CharacterOwner::seed([(CharacterId(9), Stamina::new(12).unwrap())]).unwrap();
    assert_eq!(
        owner.validate_spend(CharacterId(9), 15).err(),
        Some(RefusalReason::InsufficientStamina)
    );
}

#[test]
fn validated_spend_applies_exactly() {
    let mut owner = character_owner();
    let spend = owner.validate_spend(CharacterId(1), 10).unwrap();
    owner.apply_spend(spend);
    assert_eq!(owner.stamina(CharacterId(1)).unwrap().points(), 80);
    assert_eq!(owner.revision(), 1);
}

#[test]
fn spends_for_different_characters_never_conflict() {
    let mut owner = character_owner();
    let first = owner.validate_spend(CharacterId(1), 10).unwrap();
    let second = owner.validate_spend(CharacterId(3), 5).unwrap();
    owner.apply_spend(first);
    assert!(owner.spend_is_fresh(&second));
    owner.apply_spend(second);
    assert_eq!(owner.stamina(CharacterId(3)).unwrap().points(), 0);
    assert_eq!(owner.revision_of(CharacterId(1)), 1);
    assert_eq!(owner.revision_of(CharacterId(3)), 1);
    assert_eq!(owner.revision(), 2);
}

#[test]
fn a_second_token_for_one_character_goes_stale() {
    let mut owner = character_owner();
    let first = owner.validate_spend(CharacterId(1), 10).unwrap();
    let second = owner.validate_spend(CharacterId(1), 10).unwrap();
    owner.apply_spend(first);
    assert!(!owner.spend_is_fresh(&second));
}

// ---------------------------------------------------------------------------
// Economy owner
// ---------------------------------------------------------------------------

const FODDER: ResourceKind = ResourceKind::Fodder;

fn economy_owner() -> EconomyOwner {
    EconomyOwner::seed_sites([
        (SiteId(1), InfraTier::Established, FODDER, MassGrams::new(2000)),
        (SiteId(2), InfraTier::Crude, FODDER, MassGrams::new(300)),
    ])
    .unwrap()
}

fn stock_of(owner: &EconomyOwner, site: SiteId) -> MassGrams {
    owner
        .sites_iter()
        .into_iter()
        .find(|(id, _, _, _)| *id == site)
        .map(|(_, _, _, stock)| stock)
        .expect("site exists")
}

#[test]
fn mod_duplicate_seed_id_is_a_fixture_fault() {
    let sites = EconomyOwner::seed_sites([
        (SiteId(1), InfraTier::Established, FODDER, MassGrams::new(2000)),
        (SiteId(1), InfraTier::Crude, FODDER, MassGrams::new(300)),
    ]);
    assert_eq!(sites.err(), Some(FixtureFault::DuplicateSite(SiteId(1))));

    let claims = SocialOwner::seed_claims([
        (ClaimId(1), CharacterId(1), SiteId(1), true),
        (ClaimId(1), CharacterId(2), SiteId(2), false),
    ]);
    assert_eq!(claims.err(), Some(FixtureFault::DuplicateClaim(ClaimId(1))));
}

#[test]
fn unknown_site_is_refused() {
    assert_eq!(
        economy_owner()
            .validate_extract(SiteId(9), CharacterId(1), MassGrams::new(100))
            .err(),
        Some(RefusalReason::UnknownSite)
    );
}

#[test]
fn short_stock_grants_the_remainder() {
    let mut owner = economy_owner();
    let extraction = owner
        .validate_extract(SiteId(2), CharacterId(2), MassGrams::new(400))
        .unwrap();
    assert_eq!(extraction.granted(), MassGrams::new(300));
    owner.apply_extract(extraction);
    assert_eq!(stock_of(&owner, SiteId(2)), MassGrams::zero());
    assert_eq!(owner.holding(CharacterId(2), FODDER), MassGrams::new(300));
}

#[test]
fn empty_site_is_refused() {
    let mut owner = economy_owner();
    let extraction = owner
        .validate_extract(SiteId(2), CharacterId(2), MassGrams::new(400))
        .unwrap();
    owner.apply_extract(extraction);
    assert_eq!(
        owner
            .validate_extract(SiteId(2), CharacterId(2), MassGrams::new(1))
            .err(),
        Some(RefusalReason::SiteEmpty)
    );
}

#[test]
fn extraction_conserves_total_mass() {
    let mut owner = economy_owner();
    let before = owner.total_mass();
    let extraction = owner
        .validate_extract(SiteId(1), CharacterId(1), MassGrams::new(1800))
        .unwrap();
    owner.apply_extract(extraction);
    assert_eq!(owner.total_mass(), before);
    assert_eq!(owner.revision(), 1);
}

#[test]
fn falsification_cross_kind_leakage_must_be_impossible() {
    let mut owner = EconomyOwner::seed_sites([
        (SiteId(1), InfraTier::Established, ResourceKind::Fodder, MassGrams::new(2000)),
        (SiteId(2), InfraTier::Established, ResourceKind::Timber, MassGrams::new(2000)),
    ])
    .unwrap();

    let extraction = owner
        .validate_extract(SiteId(2), CharacterId(1), MassGrams::new(500))
        .unwrap();
    assert_eq!(extraction.kind(), ResourceKind::Timber);
    owner.apply_extract(extraction);

    assert_eq!(
        owner.holding(CharacterId(1), ResourceKind::Timber),
        MassGrams::new(500)
    );
    for leaked in [ResourceKind::Fodder, ResourceKind::Food] {
        assert_eq!(
            owner.holding(CharacterId(1), leaked),
            MassGrams::zero(),
            "timber extraction leaked into the {} holding",
            leaked.code()
        );
    }
}

#[test]
fn falsification_each_kind_total_is_conserved_separately() {
    let mut owner = EconomyOwner::seed_sites([
        (SiteId(1), InfraTier::Established, ResourceKind::Fodder, MassGrams::new(2000)),
        (SiteId(2), InfraTier::Crude, ResourceKind::Timber, MassGrams::new(300)),
    ])
    .unwrap();
    let before: Vec<MassGrams> = ResourceKind::ALL
        .into_iter()
        .map(|kind| owner.total_mass_of(kind))
        .collect();

    for (site, actor, grams) in [(1u64, 1u64, 900u64), (2, 2, 400), (1, 2, 100)] {
        let extraction = owner
            .validate_extract(SiteId(site), CharacterId(actor), MassGrams::new(grams))
            .unwrap();
        owner.apply_extract(extraction);
    }

    let after: Vec<MassGrams> = ResourceKind::ALL
        .into_iter()
        .map(|kind| owner.total_mass_of(kind))
        .collect();
    assert_eq!(before, after, "a kind total changed under extraction only");
    assert_eq!(owner.total_mass(), MassGrams::new(2300));
}

#[test]
fn zero_holdings_are_never_stored() {
    let mut owner = EconomyOwner::seed_sites([(
        SiteId(1),
        InfraTier::Established,
        ResourceKind::Fodder,
        MassGrams::new(2000),
    )])
    .unwrap();
    let extraction = owner
        .validate_extract(SiteId(1), CharacterId(1), MassGrams::new(500))
        .unwrap();
    owner.apply_extract(extraction);
    assert!(
        owner.holdings_iter().into_iter().all(|(_, _, grams)| !grams.is_zero()),
        "a zero-valued holding entry was stored"
    );
}

#[test]
fn falsification_transfer_conserves_the_kind_and_touches_nothing_else() {
    let mut owner = EconomyOwner::seed_sites([
        (SiteId(1), InfraTier::Established, FODDER, MassGrams::new(2000)),
        (SiteId(2), InfraTier::Established, ResourceKind::Timber, MassGrams::new(2000)),
    ])
    .unwrap();
    for (site, actor, grams) in [(1u64, 1u64, 500u64), (2, 1, 300), (1, 2, 100)] {
        let extraction = owner
            .validate_extract(SiteId(site), CharacterId(actor), MassGrams::new(grams))
            .unwrap();
        owner.apply_extract(extraction);
    }
    let before: Vec<MassGrams> = ResourceKind::ALL
        .into_iter()
        .map(|kind| owner.total_mass_of(kind))
        .collect();

    let transfer = owner
        .validate_transfer(CharacterId(1), CharacterId(2), FODDER, MassGrams::new(200))
        .unwrap();
    assert_eq!(transfer.grams(), MassGrams::new(200));
    owner.apply_transfer(transfer);

    assert_eq!(owner.holding(CharacterId(1), FODDER), MassGrams::new(300));
    assert_eq!(owner.holding(CharacterId(2), FODDER), MassGrams::new(300));
    assert_eq!(
        owner.holding(CharacterId(1), ResourceKind::Timber),
        MassGrams::new(300),
        "the giver's other kind moved"
    );
    assert_eq!(
        owner.holding(CharacterId(2), ResourceKind::Timber),
        MassGrams::zero(),
        "mass appeared in a kind nobody gave"
    );
    let after: Vec<MassGrams> = ResourceKind::ALL
        .into_iter()
        .map(|kind| owner.total_mass_of(kind))
        .collect();
    assert_eq!(before, after, "a transfer changed a kind total");
}

#[test]
fn falsification_short_transfer_is_refused_not_clamped() {
    let mut owner = EconomyOwner::seed_sites([(
        SiteId(1),
        InfraTier::Established,
        FODDER,
        MassGrams::new(2000),
    )])
    .unwrap();
    let extraction = owner
        .validate_extract(SiteId(1), CharacterId(1), MassGrams::new(500))
        .unwrap();
    owner.apply_extract(extraction);

    assert_eq!(
        owner
            .validate_transfer(CharacterId(1), CharacterId(2), FODDER, MassGrams::new(501))
            .err(),
        Some(RefusalReason::InsufficientHolding)
    );
    assert_eq!(
        owner
            .validate_transfer(
                CharacterId(1),
                CharacterId(2),
                ResourceKind::Timber,
                MassGrams::new(1)
            )
            .err(),
        Some(RefusalReason::InsufficientHolding),
        "a kind the giver has never held is not a source of mass"
    );
    assert_eq!(owner.holding(CharacterId(1), FODDER), MassGrams::new(500));
}

#[test]
fn falsification_giving_everything_leaves_no_zero_entry() {
    let mut owner = EconomyOwner::seed_sites([(
        SiteId(1),
        InfraTier::Established,
        FODDER,
        MassGrams::new(2000),
    )])
    .unwrap();
    let extraction = owner
        .validate_extract(SiteId(1), CharacterId(1), MassGrams::new(500))
        .unwrap();
    owner.apply_extract(extraction);
    let transfer = owner
        .validate_transfer(CharacterId(1), CharacterId(2), FODDER, MassGrams::new(500))
        .unwrap();
    owner.apply_transfer(transfer);

    assert!(
        owner
            .holdings_iter()
            .into_iter()
            .all(|(id, _, grams)| { id != CharacterId(1) && !grams.is_zero() }),
        "an emptied holding stayed in the map"
    );

    let mut reference = EconomyOwner::seed_sites([(
        SiteId(1),
        InfraTier::Established,
        FODDER,
        MassGrams::new(2000),
    )])
    .unwrap();
    for _ in 0..2 {
        let direct = reference
            .validate_extract(SiteId(1), CharacterId(2), MassGrams::new(250))
            .unwrap();
        reference.apply_extract(direct);
    }
    let hash_of = |owner: &EconomyOwner| {
        let mut hasher = Fnv1a::default();
        owner.hash_into(&mut hasher);
        hasher.finish()
    };
    assert_eq!(
        hash_of(&owner),
        hash_of(&reference),
        "an emptied holding is still visible in the hash"
    );
}

#[test]
fn checked_totals_report_overflow_instead_of_wrapping() {
    let owner = EconomyOwner::seed_sites([
        (SiteId(1), InfraTier::Established, FODDER, MassGrams::new(u64::MAX)),
        (SiteId(2), InfraTier::Crude, FODDER, MassGrams::new(1)),
    ])
    .unwrap();
    assert_eq!(owner.checked_total_mass(), None);
    assert_eq!(owner.checked_total_mass_of(FODDER), None);
    assert_eq!(owner.checked_total_mass_of(ResourceKind::Timber), Some(MassGrams::zero()));
}

// ---------------------------------------------------------------------------
// Social owner
// ---------------------------------------------------------------------------

fn social_owner() -> SocialOwner {
    SocialOwner::seed_claims([
        (ClaimId(1), CharacterId(1), SiteId(1), true),
        (ClaimId(3), CharacterId(2), SiteId(1), false),
    ])
    .unwrap()
}

#[test]
fn witnessed_claim_passes() {
    let pass = social_owner()
        .validate_witness_gate(ClaimId(1), CharacterId(1), SiteId(1))
        .unwrap();
    assert_eq!(pass.claim(), ClaimId(1));
}

#[test]
fn unwitnessed_claim_is_gated() {
    assert_eq!(
        social_owner()
            .validate_witness_gate(ClaimId(3), CharacterId(2), SiteId(1))
            .err(),
        Some(RefusalReason::ClaimNotWitnessed)
    );
}

#[test]
fn wrong_holder_is_refused() {
    assert_eq!(
        social_owner()
            .validate_witness_gate(ClaimId(1), CharacterId(2), SiteId(1))
            .err(),
        Some(RefusalReason::ClaimNotHeldByActor)
    );
}

#[test]
fn wrong_site_is_refused() {
    assert_eq!(
        social_owner()
            .validate_witness_gate(ClaimId(1), CharacterId(1), SiteId(2))
            .err(),
        Some(RefusalReason::ClaimSiteMismatch)
    );
}

#[test]
fn unknown_claim_is_refused() {
    assert_eq!(
        social_owner()
            .validate_witness_gate(ClaimId(9), CharacterId(1), SiteId(1))
            .err(),
        Some(RefusalReason::UnknownClaim)
    );
}

#[test]
fn witnessing_flips_the_gate_exactly_once() {
    let mut owner = social_owner();
    let grant = owner
        .validate_witness_grant(ClaimId(3), CharacterId(1))
        .unwrap();
    owner.apply_witness(grant);
    assert_eq!(owner.is_witnessed(ClaimId(3)), Some(true));
    assert_eq!(owner.revision(), 1);
    assert_eq!(
        owner
            .validate_witness_grant(ClaimId(3), CharacterId(1))
            .err(),
        Some(RefusalReason::ClaimAlreadyWitnessed)
    );
}

#[test]
fn holder_cannot_witness_own_claim() {
    assert_eq!(
        social_owner()
            .validate_witness_grant(ClaimId(3), CharacterId(2))
            .err(),
        Some(RefusalReason::CannotWitnessOwnClaim)
    );
}

#[test]
fn claim_listing_and_site_lookup_follow_the_seed() {
    let owner = social_owner();
    assert_eq!(
        owner.claims_iter(),
        vec![
            (ClaimId(1), CharacterId(1), SiteId(1), true),
            (ClaimId(3), CharacterId(2), SiteId(1), false),
        ]
    );
    assert_eq!(owner.claim_site(ClaimId(3)), Some(SiteId(1)));
    assert_eq!(owner.claim_site(ClaimId(2)), None);
    assert_eq!(owner.is_witnessed(ClaimId(2)), None);
}

#[test]
fn extraction_token_outlives_writes_to_other_sites_and_holdings() {
    let mut owner = economy_owner();
    let token = owner
        .validate_extract(SiteId(1), CharacterId(1), MassGrams::new(100))
        .unwrap();
    assert!(owner.extraction_is_fresh(&token));
    let elsewhere = owner
        .validate_extract(SiteId(2), CharacterId(2), MassGrams::new(50))
        .unwrap();
    owner.apply_extract(elsewhere);
    assert!(owner.extraction_is_fresh(&token));
    let same_site = owner
        .validate_extract(SiteId(1), CharacterId(2), MassGrams::new(50))
        .unwrap();
    owner.apply_extract(same_site);
    assert!(!owner.extraction_is_fresh(&token));
}

#[test]
fn extraction_token_goes_stale_when_its_holding_is_written() {
    let mut owner = economy_owner();
    let token = owner
        .validate_extract(SiteId(1), CharacterId(1), MassGrams::new(100))
        .unwrap();
    let same_holding = owner
        .validate_extract(SiteId(2), CharacterId(1), MassGrams::new(50))
        .unwrap();
    owner.apply_extract(same_holding);
    assert!(!owner.extraction_is_fresh(&token));

    let mut owner = economy_owner();
    let seed = owner
        .validate_extract(SiteId(2), CharacterId(2), MassGrams::new(50))
        .unwrap();
    owner.apply_extract(seed);
    let token = owner
        .validate_extract(SiteId(1), CharacterId(1), MassGrams::new(100))
        .unwrap();
    let unrelated = owner
        .validate_transfer(CharacterId(2), CharacterId(3), FODDER, MassGrams::new(10))
        .unwrap();
    owner.apply_transfer(unrelated);
    assert!(owner.extraction_is_fresh(&token));
    let into_its_holding = owner
        .validate_transfer(CharacterId(2), CharacterId(1), FODDER, MassGrams::new(10))
        .unwrap();
    owner.apply_transfer(into_its_holding);
    assert!(!owner.extraction_is_fresh(&token));
}
