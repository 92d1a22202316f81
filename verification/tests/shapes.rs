use std::collections::BTreeSet;

use truth_layer::boundary::{
    grammar_fingerprint, submit, CharacterId, CharacterOwner, ClaimId, Command, EconomyOwner,
    GatherCommand, InfraTier, MassGrams, OutcomeKind, PartialReason, RefusalReason, ResourceKind,
    SiteId, SocialOwner, Stamina, Verb, WitnessCommand, World, GIVE_COST, STAMINA_COST_BY_BAND,
    WITNESS_COST,
};
use truth_layer::shapes::{emit_html, emit_yaml, shapes, EVIDENCE_KINDS, MEANING_STATUSES};

/// Binding: the projection covers every closed refusal and partial
/// reason, and invents none beyond the closed vocabulary.
#[test]
fn projection_covers_the_closed_vocabulary() {
    let yaml = emit_yaml("test");
    for reason in RefusalReason::ALL {
        assert!(
            yaml.contains(reason.code()),
            "missing refusal {}",
            reason.code()
        );
    }
    for reason in PartialReason::ALL {
        assert!(yaml.contains(reason.code()), "missing partial reason");
    }
}

/// Binding: the projection lists exactly the closed resource-kind
/// vocabulary.
#[test]
fn projection_covers_the_resource_kinds() {
    let yaml = emit_yaml("test");
    for kind in ResourceKind::ALL {
        assert!(
            yaml.contains(&format!("  - \"{}\"\n", kind.code())),
            "missing resource kind {}",
            kind.code()
        );
    }
    let listed = yaml
        .split("resource_kinds:\n")
        .nth(1)
        .expect("the projection has a resource_kinds block")
        .lines()
        .take_while(|line| line.starts_with("  - "))
        .count();
    assert_eq!(listed, ResourceKind::ALL.len(), "kind list length drifted");
}

/// Binding: every verb of the closed vocabulary has a shape.
#[test]
fn projection_covers_every_verb() {
    let yaml = emit_yaml("test");
    for verb in [Verb::Gather, Verb::Witness] {
        assert!(
            yaml.contains(&format!("id: \"verb.{}\"", verb.code())),
            "missing verb shape {}",
            verb.code()
        );
    }
}

/// Every verb, the transfer included, has its own shape.
#[test]
fn projection_covers_the_give_verb() {
    let yaml = emit_yaml("test");
    assert!(yaml.contains(&format!("id: \"verb.{}\"", Verb::Give.code())));
    assert!(yaml.contains(&format!("give_cost: \"{GIVE_COST} (fixture)\"")));
}

/// Binding: numeric values are emitted from the governing constants.
#[test]
fn projection_values_come_from_the_governing_constants() {
    let yaml = emit_yaml("test");
    assert!(yaml.contains(&format!(
        "[{}, {}, {}, {}] (fixture)",
        STAMINA_COST_BY_BAND[0],
        STAMINA_COST_BY_BAND[1],
        STAMINA_COST_BY_BAND[2],
        STAMINA_COST_BY_BAND[3]
    )));
    assert!(yaml.contains(&format!("witness_cost: \"{WITNESS_COST} (fixture)\"")));
    assert!(yaml.contains(&format!("\"0x{:016x}\"", grammar_fingerprint())));
}

/// The yield table is emitted row by row, exhausted to fresh.
#[test]
fn projection_emits_the_yield_table_and_stamina_bound() {
    let yaml = emit_yaml("test");
    assert!(yaml.contains(
        "yield_table_g: \"rows exhausted..fresh: [0, 0, 0, 0] [250, 400, 600, 900] \
         [500, 800, 1200, 1800] [750, 1200, 1800, 2700] (fixture)\""
    ));
    assert!(yaml.contains("stamina_max: \"100 (proven: type-enforced bound)\""));
    assert!(yaml.contains(
        "resource_kinds: \"[fodder, food, timber] (closed vocabulary, author-licensed 2026-08-18)\""
    ));
}

/// The YAML opens with its header and the commit it was emitted for.
#[test]
fn projection_header_names_the_commit() {
    let yaml = emit_yaml("abc123");
    assert!(yaml.starts_with("# Truth shapes - deterministic projection (TS01)\n"));
    assert!(yaml.contains("\nsource_commit: \"abc123\"\ngrammar: \"0x"));
    let html = emit_html("abc123");
    assert!(html.starts_with("<!doctype html>"));
    assert!(html.contains("<title>Truth shapes - abc123</title>"));
    assert!(html.contains("source_commit=abc123 grammar=0x"));
    assert!(html.ends_with("</body></html>\n"));
    assert_eq!(html.matches("<section class=\"card\">").count(), shapes().len());
}

/// The meaning-status vocabulary is closed: every shape uses one of the
/// six statuses, and the legend lists all six.
#[test]
fn meaning_statuses_are_closed_and_fully_listed() {
    for s in shapes() {
        assert!(
            MEANING_STATUSES.contains(&s.meaning_status),
            "shape {} has unclosed status {}",
            s.id,
            s.meaning_status
        );
    }
    let html = emit_html("test");
    for status in MEANING_STATUSES {
        assert!(html.contains(status), "legend missing {status}");
    }
}

/// Determinism falsifier: identical inputs produce identical bytes, and
/// the output is addressed by its commit.
#[test]
fn falsification_emission_must_be_deterministic() {
    assert_eq!(emit_yaml("same"), emit_yaml("same"));
    assert_eq!(emit_html("same"), emit_html("same"));
    assert_ne!(emit_yaml("a"), emit_yaml("b"), "commit-addressed");
}

/// Every shape's evidence kinds come from the closed shape-level
/// vocabulary.
#[test]
fn evidence_kinds_are_closed() {
    for s in shapes() {
        for kind in &s.evidence_kind {
            assert!(
                EVIDENCE_KINDS.contains(kind),
                "shape {} cites unclosed evidence kind {kind}",
                s.id
            );
        }
    }
}

/// Mapping falsifier (bounded-exhaustive): the refusal set projected for
/// each verb equals, in both directions, the set produced by executing
/// every command of the recorded input domain, each against a fresh,
/// identically seeded snapshot.
#[test]
fn falsification_refusal_mapping_must_match_execution() {
    const ACTORS: [u64; 6] = [1, 2, 3, 4, 5, 99];
    const CLAIMS: [u64; 9] = [1, 2, 3, 4, 5, 6, 7, 9, 99];
    const SITES: [u64; 3] = [1, 2, 9];

    // Claim K9's holder C99 has no body on purpose: unknown_actor must be
    // reachable, and refusals hold regardless of fixture coherence gates.
    fn snapshot() -> World {
        World {
            characters: CharacterOwner::seed([
                (CharacterId(1), Stamina::new(90).unwrap()),
                (CharacterId(2), Stamina::new(50).unwrap()),
                (CharacterId(3), Stamina::new(5).unwrap()),
                (CharacterId(4), Stamina::new(12).unwrap()),
                (CharacterId(5), Stamina::new(4).unwrap()),
            ])
            .unwrap(),
            economy: EconomyOwner::seed_sites([
                (
                    SiteId(1),
                    InfraTier::Established,
                    ResourceKind::Fodder,
                    MassGrams::new(2000),
                ),
                (
                    SiteId(2),
                    InfraTier::Crude,
                    ResourceKind::Timber,
                    MassGrams::new(0),
                ),
            ])
            .unwrap(),
            social: SocialOwner::seed_claims([
                (ClaimId(1), CharacterId(1), SiteId(1), true),
                (ClaimId(2), CharacterId(2), SiteId(1), false),
                (ClaimId(3), CharacterId(3), SiteId(1), true),
                (ClaimId(4), CharacterId(4), SiteId(1), true),
                (ClaimId(5), CharacterId(2), SiteId(1), true),
                (ClaimId(6), CharacterId(1), SiteId(9), true),
                (ClaimId(7), CharacterId(1), SiteId(2), true),
                (ClaimId(9), CharacterId(99), SiteId(1), true),
            ])
            .unwrap(),
        }
    }

    let mut observed_gather = BTreeSet::new();
    for actor in ACTORS {
        for claim in CLAIMS {
            for site in SITES {
                let mut world = snapshot();
                let receipt = submit(
                    &mut world,
                    1,
                    Command::Gather(GatherCommand {
                        actor: CharacterId(actor),
                        claim: ClaimId(claim),
                        site: SiteId(site),
                    }),
                );
                if matches!(receipt.outcome, OutcomeKind::Refused(_)) {
                    observed_gather.insert(receipt.outcome.reason_code().to_owned());
                }
            }
        }
    }
    let mut observed_witness = BTreeSet::new();
    for actor in ACTORS {
        for claim in CLAIMS {
            let mut world = snapshot();
            let receipt = submit(
                &mut world,
                1,
                Command::Witness(WitnessCommand {
                    witness: CharacterId(actor),
                    claim: ClaimId(claim),
                }),
            );
            if matches!(receipt.outcome, OutcomeKind::Refused(_)) {
                observed_witness.insert(receipt.outcome.reason_code().to_owned());
            }
        }
    }

    for (id, observed) in [
        ("verb.gather", &observed_gather),
        ("verb.witness", &observed_witness),
    ] {
        let shape = shapes()
            .into_iter()
            .find(|s| s.id == id)
            .expect("shape exists");
        let projected: BTreeSet<String> =
            shape.refusals.iter().map(|r| (*r).to_owned()).collect();
        assert_eq!(
            &projected, observed,
            "{id}: projected refusal set must equal the executed set over the full domain"
        );
    }
}

/// Binding: no source reference is left unresolved.
#[test]
fn source_line_references_resolve() {
    let yaml = emit_yaml("test");
    assert!(
        !yaml.contains(":0 "),
        "an unresolved source-line reference (:0) reached the projection"
    );
}
