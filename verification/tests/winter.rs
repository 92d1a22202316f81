use truth_layer::boundary::{
    grammar_fingerprint, validate_world_coherence, CharacterId, MassGrams, OutcomeKind,
    PartialReason, RefusalReason, ResourceKind, KIND_COUNT,
};
use truth_layer::oracles::{baseline_by_kind, run_all, OracleCtx};
use truth_layer::winter::{fixture, household_totals, plans, run_plan, shortfall, WINTER_NEED};

struct Predicted {
    stamina: [u8; 4],
    totals: [u64; KIND_COUNT],
    shortfall: [u64; KIND_COUNT],
    sites: [u64; 3],
}

const PREDICTED: [Predicted; 3] = [
    Predicted {
        stamina: [53, 48, 33, 7],
        totals: [4_000, 0, 0],
        shortfall: [2_000, 2_500, 1_200],
        sites: [0, 2_500, 1_800],
    },
    Predicted {
        stamina: [43, 48, 13, 10],
        totals: [2_400, 0, 2_400],
        shortfall: [3_600, 2_500, 0],
        sites: [1_600, 100, 1_800],
    },
    Predicted {
        stamina: [58, 48, 18, 7],
        totals: [2_400, 1_600, 0],
        shortfall: [3_600, 900, 1_200],
        sites: [1_600, 2_500, 200],
    },
];

#[test]
fn every_plan_matches_its_pre_registered_end_state() {
    for (plan, predicted) in plans().iter().zip(PREDICTED.iter()) {
        let run = run_plan(plan);
        for (index, expected) in predicted.stamina.iter().enumerate() {
            let id = CharacterId(index as u64 + 1);
            assert_eq!(
                run.world.characters.stamina(id).unwrap().points(),
                *expected,
                "plan {} stamina for C{}",
                plan.id,
                id.0
            );
        }
        assert_eq!(
            household_totals(&run.world),
            predicted.totals,
            "plan {} household totals",
            plan.id
        );
        assert_eq!(
            shortfall(&run.world),
            predicted.shortfall,
            "plan {} shortfall",
            plan.id
        );
        let stocks: Vec<u64> = run
            .world
            .economy
            .sites_iter()
            .into_iter()
            .map(|(_, _, _, stock)| stock.grams())
            .collect();
        assert_eq!(stocks, predicted.sites, "plan {} site stocks", plan.id);
    }
}

#[test]
fn every_plan_passes_all_ten_oracles() {
    for plan in plans() {
        let run = run_plan(&plan);
        let seeded = fixture();
        let ctx = OracleCtx {
            world: &run.world,
            baseline_by_kind: baseline_by_kind(&fixture()),
            fixture: &seeded,
            commands: &run.commands,
            log: &run.log,
        };
        for verdict in &run_all(&ctx) {
            assert!(
                verdict.pass,
                "plan {} failed {}: {}",
                plan.id, verdict.name, verdict.detail
            );
        }
    }
}

#[test]
fn the_scene_beats_are_the_ones_the_scene_claims() {
    let a = run_plan(&plans()[0]);
    assert_eq!(
        a.log[3].outcome,
        OutcomeKind::Refused(RefusalReason::ClaimNotWitnessed),
        "the unwitnessed claim must stop the boy"
    );
    assert_eq!(a.log[4].stamina_spent, 5, "attesting costs the head");
    assert_eq!(
        a.log[5].outcome,
        OutcomeKind::Partial(PartialReason::SiteNearlyDepleted),
        "the field must run short mid-work"
    );
    assert_eq!(
        a.log[6].outcome,
        OutcomeKind::Refused(RefusalReason::SiteEmpty),
        "and then run out entirely"
    );

    let c = run_plan(&plans()[2]);
    assert_eq!(
        c.log[5].outcome,
        OutcomeKind::Refused(RefusalReason::InsufficientStamina),
        "the boy must be too tired for one more haul"
    );
}

#[test]
fn no_plan_can_meet_every_need() {
    let mut best_by_kind = [u64::MAX; KIND_COUNT];
    for plan in plans() {
        let run = run_plan(&plan);
        let short = shortfall(&run.world);
        assert!(
            short.iter().any(|missing| *missing > 0),
            "plan {} met every winter need — the scene is no longer a crisis",
            plan.id
        );
        for kind in ResourceKind::ALL {
            best_by_kind[kind.index()] = best_by_kind[kind.index()].min(short[kind.index()]);
        }
    }
    assert_eq!(
        best_by_kind,
        [2_000, 900, 0],
        "the best achievable shortfall per kind changed"
    );
}

#[test]
fn the_scene_adds_no_rule() {
    assert_eq!(grammar_fingerprint(), truth_layer::grammar::grammar_fingerprint());
    validate_world_coherence(&fixture()).expect("winter fixture is coherent");
    assert_eq!(fixture().economy.total_mass(), MassGrams::new(8_300));
}

#[test]
fn shortfall_is_need_minus_held_floored_at_zero() {
    let seeded = fixture();
    assert_eq!(household_totals(&seeded), [0, 0, 0]);
    assert_eq!(shortfall(&seeded), WINTER_NEED);
}
