//! Truth shapes: a deterministic, commit-addressed projection of the
//! verbs, owners and host core, as YAML plus a non-authoritative HTML
//! review page. Numbers are emitted from the governing constants at
//! emission time; descriptive prose is authored text carrying an explicit
//! meaning status. Nothing in the library ever reads a projection back.

use vstd::prelude::*;

use crate::grammar::{
    grammar_fingerprint, grammar_fingerprint_spec, GIVE_COST, STAMINA_COST_BY_BAND, WITNESS_COST,
    YIELD_TABLE_GRAMS,
};
use crate::text::{dec_chars, hex_prefixed, push_decimal, push_hex, push_str};
use crate::vocab::{kind_code, partial_code, refusal_code, PartialReason, RefusalReason, ResourceKind, Stamina};

verus! {

/// The closed shape-level evidence vocabulary: the kinds of proof that
/// back a shape.
pub const EVIDENCE_KINDS: [&'static str; 5] = [
    "behavioral-red",
    "capability-red",
    "measurement",
    "oracle",
    "parity",
];

/// The closed meaning-status vocabulary for projected statements.
pub const MEANING_STATUSES: [&'static str; 6] = [
    "ratified",
    "proven",
    "measured",
    "fixture",
    "hypothesis",
    "counterfactual",
];

/// One projected shape: a verb, an owner or the host core.
pub struct Shape {
    pub id: &'static str,
    pub kind: &'static str,
    pub meaning_status: &'static str,
    pub role: &'static str,
    pub scope: &'static str,
    pub evidence_kind: Vec<&'static str>,
    pub dependencies: Vec<&'static str>,
    pub reads: Vec<&'static str>,
    pub writes: Vec<&'static str>,
    pub mutation_closure: &'static str,
    pub guards: Vec<&'static str>,
    pub refusals: Vec<&'static str>,
    pub receipts: &'static str,
    pub invariants: Vec<&'static str>,
    pub parity_paths: Vec<&'static str>,
    pub source: &'static str,
    pub proof_refs: Vec<&'static str>,
    pub values: Vec<(&'static str, String)>,
}

/// A shape as text: every field by its characters.
#[verifier::ext_equal]
pub struct ShapeModel {
    pub id: Seq<char>,
    pub kind: Seq<char>,
    pub meaning_status: Seq<char>,
    pub role: Seq<char>,
    pub scope: Seq<char>,
    pub evidence_kind: Seq<Seq<char>>,
    pub dependencies: Seq<Seq<char>>,
    pub reads: Seq<Seq<char>>,
    pub writes: Seq<Seq<char>>,
    pub mutation_closure: Seq<char>,
    pub guards: Seq<Seq<char>>,
    pub refusals: Seq<Seq<char>>,
    pub receipts: Seq<char>,
    pub invariants: Seq<Seq<char>>,
    pub parity_paths: Seq<Seq<char>>,
    pub source: Seq<char>,
    pub proof_refs: Seq<Seq<char>>,
    pub values: Seq<(Seq<char>, Seq<char>)>,
}

/// The characters of each string of a list.
pub open spec fn texts(items: Seq<&'static str>) -> Seq<Seq<char>> {
    items.map_values(|s: &'static str| s@)
}

impl Shape {
    pub open spec fn view(&self) -> ShapeModel {
        ShapeModel {
            id: self.id@,
            kind: self.kind@,
            meaning_status: self.meaning_status@,
            role: self.role@,
            scope: self.scope@,
            evidence_kind: texts(self.evidence_kind@),
            dependencies: texts(self.dependencies@),
            reads: texts(self.reads@),
            writes: texts(self.writes@),
            mutation_closure: self.mutation_closure@,
            guards: texts(self.guards@),
            refusals: texts(self.refusals@),
            receipts: self.receipts@,
            invariants: texts(self.invariants@),
            parity_paths: texts(self.parity_paths@),
            source: self.source@,
            proof_refs: texts(self.proof_refs@),
            values: self.values@.map_values(|v: (&'static str, String)| (v.0@, v.1@)),
        }
    }
}

// ---------------------------------------------------------------------------
// Values emitted from the governing constants
// ---------------------------------------------------------------------------

/// `[a, b, c, d]` for four numbers.
pub open spec fn bracket4(a: nat, b: nat, c: nat, d: nat) -> Seq<char> {
    "["@ + dec_chars(a) + ", "@ + dec_chars(b) + ", "@ + dec_chars(c) + ", "@ + dec_chars(d) + "]"@
}

fn push_bracket4(out: &mut String, a: u64, b: u64, c: u64, d: u64)
    ensures
        final(out)@ == old(out)@ + bracket4(a as nat, b as nat, c as nat, d as nat),
{
    push_str(out, "[");
    push_decimal(out, a);
    push_str(out, ", ");
    push_decimal(out, b);
    push_str(out, ", ");
    push_decimal(out, c);
    push_str(out, ", ");
    push_decimal(out, d);
    push_str(out, "]");
    assert(final(out)@ =~= old(out)@ + bracket4(a as nat, b as nat, c as nat, d as nat));
}

pub open spec fn cost_by_band_text() -> Seq<char> {
    bracket4(
        STAMINA_COST_BY_BAND[0] as nat,
        STAMINA_COST_BY_BAND[1] as nat,
        STAMINA_COST_BY_BAND[2] as nat,
        STAMINA_COST_BY_BAND[3] as nat,
    ) + " (fixture)"@
}

fn cost_by_band_value() -> (r: String)
    ensures
        r@ == cost_by_band_text(),
{
    let mut out = String::new();
    push_bracket4(
        &mut out,
        STAMINA_COST_BY_BAND[0] as u64,
        STAMINA_COST_BY_BAND[1] as u64,
        STAMINA_COST_BY_BAND[2] as u64,
        STAMINA_COST_BY_BAND[3] as u64,
    );
    push_str(&mut out, " (fixture)");
    assert(out@ =~= cost_by_band_text());
    out
}

pub open spec fn yield_row_text(row: int) -> Seq<char> {
    bracket4(
        YIELD_TABLE_GRAMS[row][0] as nat,
        YIELD_TABLE_GRAMS[row][1] as nat,
        YIELD_TABLE_GRAMS[row][2] as nat,
        YIELD_TABLE_GRAMS[row][3] as nat,
    )
}

pub open spec fn yield_table_text() -> Seq<char> {
    "rows exhausted..fresh: "@ + yield_row_text(0) + " "@ + yield_row_text(1) + " "@ + yield_row_text(2) + " "@
        + yield_row_text(3) + " (fixture)"@
}

fn yield_table_value() -> (r: String)
    ensures
        r@ == yield_table_text(),
{
    let mut out = String::new();
    push_str(&mut out, "rows exhausted..fresh: ");
    let mut row: usize = 0;
    while row < 4
        invariant
            row <= 4,
            out@ == "rows exhausted..fresh: "@ + yield_rows_text(row as int),
        decreases 4 - row,
    {
        if row > 0 {
            push_str(&mut out, " ");
        }
        let cells = YIELD_TABLE_GRAMS[row];
        push_bracket4(&mut out, cells[0], cells[1], cells[2], cells[3]);
        proof {
            assert(yield_rows_text(row as int + 1) =~= yield_rows_text(row as int) + (if row > 0 {
                " "@
            } else {
                Seq::empty()
            }) + yield_row_text(row as int));
        }
        row = row + 1;
    }
    push_str(&mut out, " (fixture)");
    proof {
        reveal_with_fuel(yield_rows_text, 5);
    }
    assert(out@ =~= yield_table_text());
    out
}

/// The first `n` rows of the yield table, space-separated.
pub open spec fn yield_rows_text(n: int) -> Seq<char>
    decreases n,
{
    if n <= 0 {
        Seq::empty()
    } else if n == 1 {
        yield_row_text(0)
    } else {
        yield_rows_text(n - 1) + " "@ + yield_row_text(n - 1)
    }
}

pub open spec fn witness_cost_text() -> Seq<char> {
    dec_chars(WITNESS_COST as nat) + " (fixture)"@
}

fn witness_cost_value() -> (r: String)
    ensures
        r@ == witness_cost_text(),
{
    let mut out = String::new();
    push_decimal(&mut out, WITNESS_COST as u64);
    push_str(&mut out, " (fixture)");
    assert(out@ =~= witness_cost_text());
    out
}

pub open spec fn give_cost_text() -> Seq<char> {
    dec_chars(GIVE_COST as nat) + " (fixture)"@
}

fn give_cost_value() -> (r: String)
    ensures
        r@ == give_cost_text(),
{
    let mut out = String::new();
    push_decimal(&mut out, GIVE_COST as u64);
    push_str(&mut out, " (fixture)");
    assert(out@ =~= give_cost_text());
    out
}

pub open spec fn stamina_max_text() -> Seq<char> {
    dec_chars(Stamina::MAX as nat) + " (proven: type-enforced bound)"@
}

fn stamina_max_value() -> (r: String)
    ensures
        r@ == stamina_max_text(),
{
    let mut out = String::new();
    push_decimal(&mut out, Stamina::MAX as u64);
    push_str(&mut out, " (proven: type-enforced bound)");
    assert(out@ =~= stamina_max_text());
    out
}

pub open spec fn resource_kinds_text() -> Seq<char> {
    "["@ + kind_code(ResourceKind::Fodder) + ", "@ + kind_code(ResourceKind::Food) + ", "@ + kind_code(
        ResourceKind::Timber,
    ) + "] (closed vocabulary, author-licensed 2026-08-18)"@
}

fn resource_kinds_value() -> (r: String)
    ensures
        r@ == resource_kinds_text(),
{
    let mut out = String::new();
    push_str(&mut out, "[");
    push_str(&mut out, ResourceKind::Fodder.code());
    push_str(&mut out, ", ");
    push_str(&mut out, ResourceKind::Food.code());
    push_str(&mut out, ", ");
    push_str(&mut out, ResourceKind::Timber.code());
    push_str(&mut out, "] (closed vocabulary, author-licensed 2026-08-18)");
    assert(out@ =~= resource_kinds_text());
    out
}

// ---------------------------------------------------------------------------
// The catalog
// ---------------------------------------------------------------------------

pub open spec fn gather_model() -> ShapeModel {
    ShapeModel {
        id: "verb.gather"@,
        kind: "verb"@,
        meaning_status: "proven"@,
        role: "Move mass of the site's kind from a claimed, witnessed site into the actor's holding of that kind, paying band-dependent stamina"@,
        scope: "mechanics proven on the standard fixture and bounded traces (trial 007); every numeric value is a fixture, not balance"@,
        evidence_kind: seq!["behavioral-red"@, "oracle"@, "parity"@],
        dependencies: seq!["owner.social"@, "owner.character"@, "owner.economy"@],
        reads: seq!["social.claims"@, "character.stamina"@, "economy.sites"@, "economy.holdings (entity revision bound at validation)"@],
        writes: seq!["character.stamina"@, "economy.sites"@, "economy.holdings"@],
        mutation_closure: "character and economy entity revisions advance; social state is never touched by a gather"@,
        guards: seq!["claim exists, held by actor, covers site, witnessed"@, "actor exists, band not exhausted, exact stamina headroom"@, "site exists, stock nonzero; grant = min(requested, stock)"@, "two-phase commit: every token fresh before any owner mutates"@],
        refusals: seq!["unknown_claim"@, "claim_not_held_by_actor"@, "claim_site_mismatch"@, "claim_not_witnessed"@, "unknown_actor"@, "actor_exhausted"@, "insufficient_stamina"@, "unknown_site"@, "site_empty"@],
        receipts: "canonical line with band, tier, kind, spent, mass, grammar, and the world hash chain; partial via site_nearly_depleted"@,
        invariants: seq!["mass conservation, per kind and in aggregate"@, "stamina bounds"@, "cell bounds"@, "refusal zero-mutation"@, "shadow expectation and final state"@],
        parity_paths: seq!["pure"@, "bevy-serial"@],
        source: "src/boundary.rs plan_gather, GatherPlan::apply, submit_gather"@,
        proof_refs: seq!["trial/003"@, "trial/007"@, "trial/008"@, "oracles 1-10"@],
        values: seq![("cost_by_band"@, cost_by_band_text()), ("yield_table_g"@, yield_table_text())],
    }
}

pub open spec fn witness_model() -> ShapeModel {
    ShapeModel {
        id: "verb.witness"@,
        kind: "verb"@,
        meaning_status: "proven"@,
        role: "Attest another actor's claim, flipping its boolean gate; flat stamina cost, no exhausted gate — a spent actor may still vouch"@,
        scope: "mechanics proven on the standard fixture and bounded traces; the flat cost is a fixture, not balance"@,
        evidence_kind: seq!["behavioral-red"@, "oracle"@, "parity"@],
        dependencies: seq!["owner.social"@, "owner.character"@],
        reads: seq!["social.claims"@, "character.stamina"@],
        writes: seq!["character.stamina"@, "social.claims"@],
        mutation_closure: "character and social entity revisions advance; economy is never touched and no mass moves"@,
        guards: seq!["claim exists, not already witnessed, not the witness's own"@, "actor exists, exact stamina headroom (no exhausted gate)"@, "two-phase commit: every token fresh before any owner mutates"@],
        refusals: seq!["unknown_claim"@, "cannot_witness_own_claim"@, "claim_already_witnessed"@, "unknown_actor"@, "insufficient_stamina"@],
        receipts: "canonical line, zero mass, witnessed flag records the pre-verb state; hash chain advances"@,
        invariants: seq!["zero mass movement"@, "refusal zero-mutation"@, "shadow expectation and final state"@],
        parity_paths: seq!["pure"@, "bevy-serial"@],
        source: "src/boundary.rs plan_witness, WitnessPlan::apply, submit_witness"@,
        proof_refs: seq!["verb-isolation-report"@, "trial/003"@, "oracles 1-10"@],
        values: seq![("witness_cost"@, witness_cost_text())],
    }
}

pub open spec fn give_model() -> ShapeModel {
    ShapeModel {
        id: "verb.give"@,
        kind: "verb"@,
        meaning_status: "proven"@,
        role: "Move a named mass of one kind from the giver's holding to another character's, paying a flat stamina cost; a named third-party witness is receipted by identity and pays nothing"@,
        scope: "mechanics verified for every settled world and command; the flat cost is a fixture, not balance"@,
        evidence_kind: seq!["behavioral-red"@, "oracle"@, "parity"@],
        dependencies: seq!["owner.character"@, "owner.economy"@],
        reads: seq!["character.stamina"@, "economy.holdings"@],
        writes: seq!["character.stamina"@, "economy.holdings"@],
        mutation_closure: "the parties' character and holding revisions advance; social state is never touched and witnessing a give is never stateful"@,
        guards: seq!["giver and recipient distinct, recipient exists"@, "a named witness exists and is neither party"@, "nonzero mass"@, "giver exists, exact stamina headroom (no exhausted gate)"@, "giver holds the named mass of the named kind; exact, never clamped"@, "two-phase commit: every token fresh before any owner mutates"@],
        refusals: seq!["cannot_give_to_self"@, "unknown_recipient"@, "unknown_witness"@, "witness_is_party"@, "empty_transfer"@, "unknown_actor"@, "insufficient_stamina"@, "insufficient_holding"@],
        receipts: "canonical line with recipient, kind, mass and the named witness by identity; claim=- and the claim flag is always false"@,
        invariants: seq!["per-kind mass conservation"@, "only the two parties change"@, "refusal zero-mutation"@],
        parity_paths: seq!["pure"@, "hosted"@],
        source: "src/boundary.rs plan_give, GivePlan::apply, submit_give"@,
        proof_refs: seq!["law_give_touches_only_its_parties"@, "law_give_witness_is_never_stateful"@, "law_transfer_never_reports_a_claim"@, "law_transfer_conserves_mass"@],
        values: seq![("give_cost"@, give_cost_text())],
    }
}

pub open spec fn character_owner_model() -> ShapeModel {
    ShapeModel {
        id: "owner.character"@,
        kind: "owner"@,
        meaning_status: "proven"@,
        role: "Single writer of character bodies (stamina); verb-agnostic resource semantics — cost arrives from boundary verb policy"@,
        scope: "proven for the current single-writer product state"@,
        evidence_kind: seq!["behavioral-red"@, "oracle"@],
        dependencies: seq!["boundary primitives only"@],
        reads: seq!["character.stamina (own state)"@],
        writes: seq!["character.stamina (own state only)"@],
        mutation_closure: "apply_spend: exact subtraction, per-character entity revision + owner counter advance"@,
        guards: seq!["actor exists"@, "exact headroom (no clamping path exists)"@, "token bound to the one character's entity revision"@],
        refusals: seq!["unknown_actor"@, "insufficient_stamina"@],
        receipts: "none of its own — receipts are boundary artifacts"@,
        invariants: seq!["stamina in 0..=MAX by construction"@, "stale token panics"@],
        parity_paths: seq!["pure"@, "bevy-serial"@],
        source: "src/character/mod.rs validate_spend, apply_spend"@,
        proof_refs: seq!["trial-log round 1"@, "trial/003"@],
        values: seq![("stamina_max"@, stamina_max_text())],
    }
}

pub open spec fn economy_owner_model() -> ShapeModel {
    ShapeModel {
        id: "owner.economy"@,
        kind: "owner"@,
        meaning_status: "proven"@,
        role: "Single writer of mass — site stock and per-kind holdings; negative mass unrepresentable, totals bounded at coherence time, conserved per kind"@,
        scope: "proven for the current single-writer product state and the coherence-bounded mass aggregate"@,
        evidence_kind: seq!["behavioral-red"@, "oracle"@],
        dependencies: seq!["boundary primitives only"@],
        reads: seq!["economy.sites, economy.holdings (own state)"@],
        writes: seq!["economy.sites, economy.holdings (own state only)"@],
        mutation_closure: "apply_extract: checked subtraction from the site, bounded addition to the holding of the SITE's kind; site + (character, kind) entity revisions + owner counter advance; a holding that reaches zero is removed, never stored as zero"@,
        guards: seq!["site exists, stock nonzero"@, "grant = min(requested, stock) at validation"@, "token bound to site and (character, kind) entity revisions"@, "the kind is the site's, never the caller's"@],
        refusals: seq!["unknown_site"@, "site_empty"@],
        receipts: "none of its own — receipts are boundary artifacts"@,
        invariants: seq!["total mass conserved by every apply"@, "per-kind mass conserved by every apply"@, "no cross-kind leakage: a grant lands only in the site's kind"@, "post-preflight apply totality under the coherence bound"@, "stale token panics"@],
        parity_paths: seq!["pure"@, "bevy-serial"@],
        source: "src/economy/mod.rs validate_extract, apply_extract"@,
        proof_refs: seq!["trial-log round 1"@, "trial/003"@, "trial/008"@, "trial/RES01"@],
        values: seq![("resource_kinds"@, resource_kinds_text())],
    }
}

pub open spec fn social_owner_model() -> ShapeModel {
    ShapeModel {
        id: "owner.social"@,
        kind: "owner"@,
        meaning_status: "proven"@,
        role: "Single writer of claims and witnessing; the witnessed claim is a boolean gate other verbs read but never write"@,
        scope: "proven for the current single-writer product state"@,
        evidence_kind: seq!["behavioral-red"@, "oracle"@],
        dependencies: seq!["boundary primitives only"@],
        reads: seq!["social.claims (own state)"@],
        writes: seq!["social.claims (own state only)"@],
        mutation_closure: "apply_witness: one boolean flip, per-claim entity revision + owner counter advance; witnessing is monotone (never un-witnessed)"@,
        guards: seq!["claim exists, not already witnessed, not self-witnessed"@, "token bound to the one claim's entity revision"@],
        refusals: seq!["unknown_claim"@, "claim_already_witnessed"@, "cannot_witness_own_claim"@, "claim_not_held_by_actor"@, "claim_site_mismatch"@, "claim_not_witnessed"@],
        receipts: "none of its own — receipts are boundary artifacts"@,
        invariants: seq!["monotone witnessing"@, "stale token panics"@],
        parity_paths: seq!["pure"@, "bevy-serial"@],
        source: "src/social/mod.rs validate_witness_gate, validate_witness_grant, apply_witness"@,
        proof_refs: seq!["verb-isolation-report"@, "trial/003"@],
        values: seq![],
    }
}

pub open spec fn host_model() -> ShapeModel {
    ShapeModel {
        id: "host.bevy_ecs"@,
        kind: "host-adapter"@,
        meaning_status: "proven"@,
        role: "Custodies the truth World as one ECS resource and replays the trial under a byte-parity gate; projects disposable views, publishes identified snapshots, isolates host faults"@,
        scope: "proven for the standard fixture, bounded traces, and the R01-R03 probe suite; sequential scheduling only (A1 law)"@,
        evidence_kind: seq!["capability-red"@, "behavioral-red"@, "measurement"@, "parity"@],
        dependencies: seq!["bevy_ecs (minimized: std only)"@, "boundary"@],
        reads: seq!["canonical observations"@, "command queue (transport)"@],
        writes: seq!["truth — only through submit, from the single commit system"@, "view entities, publications, host-fault log"@],
        mutation_closure: "exactly one registered system holds mutable access to Truth (the commit system calling submit); projections and faults leave zero canonical trace"@,
        guards: seq!["custody topology test (one ResMut access)"@, "admission gate ahead of the boundary"@, "publication identity: monotone revisions + state hash"@],
        refusals: seq!["host faults are not refusals: admission_failed, projection_consumer_failed (closed, beside receipts)"@],
        receipts: "reproduces the pure run's canonical receipts byte-for-byte"@,
        invariants: seq!["byte parity of receipts and canonical state"@, "projection non-authority"@, "stale publication rejectable downstream"@, "no unwind-catching of truth panics"@],
        parity_paths: seq!["bevy-serial vs pure (every gate run)"@],
        source: "src/host_bevy.rs Host, submit_next, publish, publication"@,
        proof_refs: seq!["trial/002"@, "trial/006"@, "trial/007"@, "trials R01-R03"@, "trial/D01"@],
        values: seq![],
    }
}

/// Every projected shape, in emission order.
#[verifier::opaque]
pub open spec fn catalog() -> Seq<ShapeModel> {
    seq![
        gather_model(),
        witness_model(),
        give_model(),
        character_owner_model(),
        economy_owner_model(),
        social_owner_model(),
        host_model(),
    ]
}

fn gather_shape() -> (r: Shape)
    ensures
        r.view() =~= gather_model(),
{
    let r = Shape {
        id: "verb.gather",
        kind: "verb",
        meaning_status: "proven",
        role: "Move mass of the site's kind from a claimed, witnessed site into the actor's holding of that kind, paying band-dependent stamina",
        scope: "mechanics proven on the standard fixture and bounded traces (trial 007); every numeric value is a fixture, not balance",
        evidence_kind: vec!["behavioral-red", "oracle", "parity"],
        dependencies: vec!["owner.social", "owner.character", "owner.economy"],
        reads: vec!["social.claims", "character.stamina", "economy.sites", "economy.holdings (entity revision bound at validation)"],
        writes: vec!["character.stamina", "economy.sites", "economy.holdings"],
        mutation_closure: "character and economy entity revisions advance; social state is never touched by a gather",
        guards: vec!["claim exists, held by actor, covers site, witnessed", "actor exists, band not exhausted, exact stamina headroom", "site exists, stock nonzero; grant = min(requested, stock)", "two-phase commit: every token fresh before any owner mutates"],
        refusals: vec!["unknown_claim", "claim_not_held_by_actor", "claim_site_mismatch", "claim_not_witnessed", "unknown_actor", "actor_exhausted", "insufficient_stamina", "unknown_site", "site_empty"],
        receipts: "canonical line with band, tier, kind, spent, mass, grammar, and the world hash chain; partial via site_nearly_depleted",
        invariants: vec!["mass conservation, per kind and in aggregate", "stamina bounds", "cell bounds", "refusal zero-mutation", "shadow expectation and final state"],
        parity_paths: vec!["pure", "bevy-serial"],
        source: "src/boundary.rs plan_gather, GatherPlan::apply, submit_gather",
        proof_refs: vec!["trial/003", "trial/007", "trial/008", "oracles 1-10"],
        values: vec![("cost_by_band", cost_by_band_value()), ("yield_table_g", yield_table_value())],
    };
    proof {
        assert(r.view() =~= gather_model());
    }
    r
}

fn witness_shape() -> (r: Shape)
    ensures
        r.view() =~= witness_model(),
{
    let r = Shape {
        id: "verb.witness",
        kind: "verb",
        meaning_status: "proven",
        role: "Attest another actor's claim, flipping its boolean gate; flat stamina cost, no exhausted gate — a spent actor may still vouch",
        scope: "mechanics proven on the standard fixture and bounded traces; the flat cost is a fixture, not balance",
        evidence_kind: vec!["behavioral-red", "oracle", "parity"],
        dependencies: vec!["owner.social", "owner.character"],
        reads: vec!["social.claims", "character.stamina"],
        writes: vec!["character.stamina", "social.claims"],
        mutation_closure: "character and social entity revisions advance; economy is never touched and no mass moves",
        guards: vec!["claim exists, not already witnessed, not the witness's own", "actor exists, exact stamina headroom (no exhausted gate)", "two-phase commit: every token fresh before any owner mutates"],
        refusals: vec!["unknown_claim", "cannot_witness_own_claim", "claim_already_witnessed", "unknown_actor", "insufficient_stamina"],
        receipts: "canonical line, zero mass, witnessed flag records the pre-verb state; hash chain advances",
        invariants: vec!["zero mass movement", "refusal zero-mutation", "shadow expectation and final state"],
        parity_paths: vec!["pure", "bevy-serial"],
        source: "src/boundary.rs plan_witness, WitnessPlan::apply, submit_witness",
        proof_refs: vec!["verb-isolation-report", "trial/003", "oracles 1-10"],
        values: vec![("witness_cost", witness_cost_value())],
    };
    proof {
        assert(r.view() =~= witness_model());
    }
    r
}

fn give_shape() -> (r: Shape)
    ensures
        r.view() =~= give_model(),
{
    let r = Shape {
        id: "verb.give",
        kind: "verb",
        meaning_status: "proven",
        role: "Move a named mass of one kind from the giver's holding to another character's, paying a flat stamina cost; a named third-party witness is receipted by identity and pays nothing",
        scope: "mechanics verified for every settled world and command; the flat cost is a fixture, not balance",
        evidence_kind: vec!["behavioral-red", "oracle", "parity"],
        dependencies: vec!["owner.character", "owner.economy"],
        reads: vec!["character.stamina", "economy.holdings"],
        writes: vec!["character.stamina", "economy.holdings"],
        mutation_closure: "the parties' character and holding revisions advance; social state is never touched and witnessing a give is never stateful",
        guards: vec!["giver and recipient distinct, recipient exists", "a named witness exists and is neither party", "nonzero mass", "giver exists, exact stamina headroom (no exhausted gate)", "giver holds the named mass of the named kind; exact, never clamped", "two-phase commit: every token fresh before any owner mutates"],
        refusals: vec!["cannot_give_to_self", "unknown_recipient", "unknown_witness", "witness_is_party", "empty_transfer", "unknown_actor", "insufficient_stamina", "insufficient_holding"],
        receipts: "canonical line with recipient, kind, mass and the named witness by identity; claim=- and the claim flag is always false",
        invariants: vec!["per-kind mass conservation", "only the two parties change", "refusal zero-mutation"],
        parity_paths: vec!["pure", "hosted"],
        source: "src/boundary.rs plan_give, GivePlan::apply, submit_give",
        proof_refs: vec!["law_give_touches_only_its_parties", "law_give_witness_is_never_stateful", "law_transfer_never_reports_a_claim", "law_transfer_conserves_mass"],
        values: vec![("give_cost", give_cost_value())],
    };
    proof {
        assert(r.view() =~= give_model());
    }
    r
}

fn character_owner_shape() -> (r: Shape)
    ensures
        r.view() =~= character_owner_model(),
{
    let r = Shape {
        id: "owner.character",
        kind: "owner",
        meaning_status: "proven",
        role: "Single writer of character bodies (stamina); verb-agnostic resource semantics — cost arrives from boundary verb policy",
        scope: "proven for the current single-writer product state",
        evidence_kind: vec!["behavioral-red", "oracle"],
        dependencies: vec!["boundary primitives only"],
        reads: vec!["character.stamina (own state)"],
        writes: vec!["character.stamina (own state only)"],
        mutation_closure: "apply_spend: exact subtraction, per-character entity revision + owner counter advance",
        guards: vec!["actor exists", "exact headroom (no clamping path exists)", "token bound to the one character's entity revision"],
        refusals: vec!["unknown_actor", "insufficient_stamina"],
        receipts: "none of its own — receipts are boundary artifacts",
        invariants: vec!["stamina in 0..=MAX by construction", "stale token panics"],
        parity_paths: vec!["pure", "bevy-serial"],
        source: "src/character/mod.rs validate_spend, apply_spend",
        proof_refs: vec!["trial-log round 1", "trial/003"],
        values: vec![("stamina_max", stamina_max_value())],
    };
    proof {
        assert(r.view() =~= character_owner_model());
    }
    r
}

fn economy_owner_shape() -> (r: Shape)
    ensures
        r.view() =~= economy_owner_model(),
{
    let r = Shape {
        id: "owner.economy",
        kind: "owner",
        meaning_status: "proven",
        role: "Single writer of mass — site stock and per-kind holdings; negative mass unrepresentable, totals bounded at coherence time, conserved per kind",
        scope: "proven for the current single-writer product state and the coherence-bounded mass aggregate",
        evidence_kind: vec!["behavioral-red", "oracle"],
        dependencies: vec!["boundary primitives only"],
        reads: vec!["economy.sites, economy.holdings (own state)"],
        writes: vec!["economy.sites, economy.holdings (own state only)"],
        mutation_closure: "apply_extract: checked subtraction from the site, bounded addition to the holding of the SITE's kind; site + (character, kind) entity revisions + owner counter advance; a holding that reaches zero is removed, never stored as zero",
        guards: vec!["site exists, stock nonzero", "grant = min(requested, stock) at validation", "token bound to site and (character, kind) entity revisions", "the kind is the site's, never the caller's"],
        refusals: vec!["unknown_site", "site_empty"],
        receipts: "none of its own — receipts are boundary artifacts",
        invariants: vec!["total mass conserved by every apply", "per-kind mass conserved by every apply", "no cross-kind leakage: a grant lands only in the site's kind", "post-preflight apply totality under the coherence bound", "stale token panics"],
        parity_paths: vec!["pure", "bevy-serial"],
        source: "src/economy/mod.rs validate_extract, apply_extract",
        proof_refs: vec!["trial-log round 1", "trial/003", "trial/008", "trial/RES01"],
        values: vec![("resource_kinds", resource_kinds_value())],
    };
    proof {
        assert(r.view() =~= economy_owner_model());
    }
    r
}

fn social_owner_shape() -> (r: Shape)
    ensures
        r.view() =~= social_owner_model(),
{
    let r = Shape {
        id: "owner.social",
        kind: "owner",
        meaning_status: "proven",
        role: "Single writer of claims and witnessing; the witnessed claim is a boolean gate other verbs read but never write",
        scope: "proven for the current single-writer product state",
        evidence_kind: vec!["behavioral-red", "oracle"],
        dependencies: vec!["boundary primitives only"],
        reads: vec!["social.claims (own state)"],
        writes: vec!["social.claims (own state only)"],
        mutation_closure: "apply_witness: one boolean flip, per-claim entity revision + owner counter advance; witnessing is monotone (never un-witnessed)",
        guards: vec!["claim exists, not already witnessed, not self-witnessed", "token bound to the one claim's entity revision"],
        refusals: vec!["unknown_claim", "claim_already_witnessed", "cannot_witness_own_claim", "claim_not_held_by_actor", "claim_site_mismatch", "claim_not_witnessed"],
        receipts: "none of its own — receipts are boundary artifacts",
        invariants: vec!["monotone witnessing", "stale token panics"],
        parity_paths: vec!["pure", "bevy-serial"],
        source: "src/social/mod.rs validate_witness_gate, validate_witness_grant, apply_witness",
        proof_refs: vec!["verb-isolation-report", "trial/003"],
        values: vec![],
    };
    proof {
        assert(r.view() =~= social_owner_model());
    }
    r
}

fn host_shape() -> (r: Shape)
    ensures
        r.view() =~= host_model(),
{
    let r = Shape {
        id: "host.bevy_ecs",
        kind: "host-adapter",
        meaning_status: "proven",
        role: "Custodies the truth World as one ECS resource and replays the trial under a byte-parity gate; projects disposable views, publishes identified snapshots, isolates host faults",
        scope: "proven for the standard fixture, bounded traces, and the R01-R03 probe suite; sequential scheduling only (A1 law)",
        evidence_kind: vec!["capability-red", "behavioral-red", "measurement", "parity"],
        dependencies: vec!["bevy_ecs (minimized: std only)", "boundary"],
        reads: vec!["canonical observations", "command queue (transport)"],
        writes: vec!["truth — only through submit, from the single commit system", "view entities, publications, host-fault log"],
        mutation_closure: "exactly one registered system holds mutable access to Truth (the commit system calling submit); projections and faults leave zero canonical trace",
        guards: vec!["custody topology test (one ResMut access)", "admission gate ahead of the boundary", "publication identity: monotone revisions + state hash"],
        refusals: vec!["host faults are not refusals: admission_failed, projection_consumer_failed (closed, beside receipts)"],
        receipts: "reproduces the pure run's canonical receipts byte-for-byte",
        invariants: vec!["byte parity of receipts and canonical state", "projection non-authority", "stale publication rejectable downstream", "no unwind-catching of truth panics"],
        parity_paths: vec!["bevy-serial vs pure (every gate run)"],
        source: "src/host_bevy.rs Host, submit_next, publish, publication",
        proof_refs: vec!["trial/002", "trial/006", "trial/007", "trials R01-R03", "trial/D01"],
        values: vec![],
    };
    proof {
        assert(r.view() =~= host_model());
    }
    r
}

/// The catalog, built.
pub fn shapes() -> (r: Vec<Shape>)
    ensures
        r@.len() == catalog().len(),
        forall|i: int| 0 <= i < r@.len() ==> (#[trigger] r@[i]).view() == catalog()[i],
{
    let r = vec![
        gather_shape(),
        witness_shape(),
        give_shape(),
        character_owner_shape(),
        economy_owner_shape(),
        social_owner_shape(),
        host_shape(),
    ];
    proof {
        reveal(catalog);
    }
    r
}


// ---------------------------------------------------------------------------
// YAML
// ---------------------------------------------------------------------------

/// Three header lines that name the file a projection.
pub const YAML_HEADER: &'static str = "# Truth shapes - deterministic projection (TS01)\n# authority: projection. The executable Rust code and its tests are\n# authoritative; nothing may read this file as an input.\n";

/// One quoted list item under `indent`.
pub open spec fn quoted_line(indent: Seq<char>, item: Seq<char>) -> Seq<char> {
    indent + "  - \""@ + item + "\"\n"@
}

/// Every item of a list, one quoted line each.
pub open spec fn quoted_lines(indent: Seq<char>, items: Seq<Seq<char>>) -> Seq<char>
    decreases items.len(),
{
    if items.len() == 0 {
        Seq::empty()
    } else {
        quoted_lines(indent, items.drop_last()) + quoted_line(indent, items.last())
    }
}

/// A named YAML list: its key line, then its items.
pub open spec fn yaml_list_text(indent: Seq<char>, name: Seq<char>, items: Seq<Seq<char>>) -> Seq<char> {
    indent + name + ":\n"@ + quoted_lines(indent, items)
}

/// A quoted scalar field of a shape.
pub open spec fn yaml_field(name: Seq<char>, value: Seq<char>) -> Seq<char> {
    "    "@ + name + ": \""@ + value + "\"\n"@
}

/// The named values of a shape, one line each.
pub open spec fn value_lines(values: Seq<(Seq<char>, Seq<char>)>) -> Seq<char>
    decreases values.len(),
{
    if values.len() == 0 {
        Seq::empty()
    } else {
        value_lines(values.drop_last()) + "      "@ + values.last().0 + ": \""@ + values.last().1 + "\"\n"@
    }
}

/// The values block: an empty flow list, or one line per value.
pub open spec fn values_yaml(values: Seq<(Seq<char>, Seq<char>)>) -> Seq<char> {
    if values.len() == 0 {
        "    values: []\n"@
    } else {
        "    values:\n"@ + value_lines(values)
    }
}

/// A shape entry's opening scalars.
pub open spec fn shape_yaml_head(s: ShapeModel) -> Seq<char> {
    "  - id: \""@ + s.id + "\"\n"@
        + yaml_field("kind"@, s.kind)
        + yaml_field("meaning_status"@, s.meaning_status)
        + "    authority: \"projection\"\n"@
        + yaml_field("role"@, s.role)
        + yaml_field("scope"@, s.scope)
}

/// A shape entry's dependency, access and guard lists.
pub open spec fn shape_yaml_middle(s: ShapeModel) -> Seq<char> {
    yaml_list_text("    "@, "evidence_kind"@, s.evidence_kind)
        + yaml_list_text("    "@, "dependencies"@, s.dependencies)
        + yaml_list_text("    "@, "reads"@, s.reads)
        + yaml_list_text("    "@, "writes"@, s.writes)
        + yaml_field("mutation_closure"@, s.mutation_closure)
        + yaml_list_text("    "@, "guards"@, s.guards)
        + yaml_list_text("    "@, "refusals"@, s.refusals)
}

/// A shape entry's receipts, invariants, provenance and values.
pub open spec fn shape_yaml_tail(s: ShapeModel) -> Seq<char> {
    yaml_field("receipts"@, s.receipts)
        + yaml_list_text("    "@, "invariants"@, s.invariants)
        + yaml_list_text("    "@, "parity_paths"@, s.parity_paths)
        + yaml_field("source"@, s.source)
        + yaml_list_text("    "@, "proof_refs"@, s.proof_refs)
        + values_yaml(s.values)
}

/// One shape as a YAML list entry.
pub open spec fn shape_yaml(s: ShapeModel) -> Seq<char> {
    shape_yaml_head(s) + shape_yaml_middle(s) + shape_yaml_tail(s)
}

/// Every shape, in order.
pub open spec fn shapes_yaml(shapes: Seq<ShapeModel>) -> Seq<char>
    decreases shapes.len(),
{
    if shapes.len() == 0 {
        Seq::empty()
    } else {
        shapes_yaml(shapes.drop_last()) + shape_yaml(shapes.last())
    }
}

/// The meaning statuses, by their characters.
pub open spec fn meaning_status_texts() -> Seq<Seq<char>> {
    texts(MEANING_STATUSES@)
}

/// The evidence kinds, by their characters.
pub open spec fn evidence_kind_texts() -> Seq<Seq<char>> {
    texts(EVIDENCE_KINDS@)
}

/// The resource-kind codes, in index order.
pub open spec fn resource_kind_texts() -> Seq<Seq<char>> {
    seq![kind_code(ResourceKind::Fodder), kind_code(ResourceKind::Food), kind_code(ResourceKind::Timber)]
}

/// The characters before the commit in the YAML projection.
pub open spec fn yaml_before_commit() -> Seq<char> {
    YAML_HEADER@ + "source_commit: \""@
}

/// The characters after the commit in the YAML projection; they do not
/// depend on the commit.
pub open spec fn yaml_after_commit() -> Seq<char> {
    yaml_grammar_lines() + yaml_vocabularies() + "shapes:\n"@ + shapes_yaml(catalog())
}

/// The close of the commit line and the grammar line.
pub open spec fn yaml_grammar_lines() -> Seq<char> {
    "\"\n"@ + "grammar: \""@ + hex_prefixed(grammar_fingerprint_spec()) + "\"\n"@
}

/// The three closed vocabularies, as top-level YAML lists.
pub open spec fn yaml_vocabularies() -> Seq<char> {
    yaml_list_text(Seq::empty(), "meaning_statuses"@, meaning_status_texts())
        + yaml_list_text(Seq::empty(), "evidence_kinds"@, evidence_kind_texts())
        + yaml_list_text(Seq::empty(), "resource_kinds"@, resource_kind_texts())
}

/// The whole YAML projection for a source commit.
pub open spec fn yaml_doc(source_commit: Seq<char>) -> Seq<char> {
    yaml_before_commit() + source_commit + yaml_after_commit()
}

fn push_quoted_lines(out: &mut String, indent: &str, items: &[&'static str])
    ensures
        final(out)@ == old(out)@ + quoted_lines(indent@, texts(items@)),
{
    let ghost start = out@;
    let mut i: usize = 0;
    while i < items.len()
        invariant
            i <= items@.len(),
            out@ == start + quoted_lines(indent@, texts(items@.take(i as int))),
        decreases items@.len() - i,
    {
        push_str(out, indent);
        push_str(out, "  - \"");
        push_str(out, items[i]);
        push_str(out, "\"\n");
        proof {
            assert(items@.take(i as int + 1).drop_last() =~= items@.take(i as int));
            assert(texts(items@.take(i as int + 1)).drop_last() =~= texts(items@.take(i as int)));
            assert(out@ =~= start + quoted_lines(indent@, texts(items@.take(i as int + 1))));
        }
        i = i + 1;
    }
    assert(items@.take(items@.len() as int) =~= items@);
}

fn push_yaml_list(out: &mut String, indent: &str, name: &str, items: &[&'static str])
    ensures
        final(out)@ == old(out)@ + yaml_list_text(indent@, name@, texts(items@)),
{
    push_str(out, indent);
    push_str(out, name);
    push_str(out, ":\n");
    push_quoted_lines(out, indent, items);
    assert(final(out)@ =~= old(out)@ + yaml_list_text(indent@, name@, texts(items@)));
}

fn push_yaml_field(out: &mut String, name: &str, value: &str)
    ensures
        final(out)@ == old(out)@ + yaml_field(name@, value@),
{
    push_str(out, "    ");
    push_str(out, name);
    push_str(out, ": \"");
    push_str(out, value);
    push_str(out, "\"\n");
    assert(final(out)@ =~= old(out)@ + yaml_field(name@, value@));
}

fn push_values_yaml(out: &mut String, values: &Vec<(&'static str, String)>)
    ensures
        final(out)@ == old(out)@ + values_yaml(values@.map_values(|v: (&'static str, String)| (v.0@, v.1@))),
{
    let ghost vs = values@.map_values(|v: (&'static str, String)| (v.0@, v.1@));
    if values.len() == 0 {
        push_str(out, "    values: []\n");
        return;
    }
    push_str(out, "    values:\n");
    let ghost start = out@;
    let mut i: usize = 0;
    while i < values.len()
        invariant
            i <= values@.len(),
            vs == values@.map_values(|v: (&'static str, String)| (v.0@, v.1@)),
            out@ == start + value_lines(vs.take(i as int)),
        decreases values@.len() - i,
    {
        push_str(out, "      ");
        push_str(out, values[i].0);
        push_str(out, ": \"");
        push_str(out, values[i].1.as_str());
        push_str(out, "\"\n");
        proof {
            assert(vs.take(i as int + 1).drop_last() =~= vs.take(i as int));
            assert(out@ =~= start + value_lines(vs.take(i as int + 1)));
        }
        i = i + 1;
    }
    assert(vs.take(vs.len() as int) =~= vs);
}

fn push_shape_yaml_head(out: &mut String, s: &Shape)
    ensures
        final(out)@ == old(out)@ + shape_yaml_head(s.view()),
{
    push_str(out, "  - id: \"");
    push_str(out, s.id);
    push_str(out, "\"\n");
    push_yaml_field(out, "kind", s.kind);
    push_yaml_field(out, "meaning_status", s.meaning_status);
    push_str(out, "    authority: \"projection\"\n");
    push_yaml_field(out, "role", s.role);
    push_yaml_field(out, "scope", s.scope);
    assert(final(out)@ =~= old(out)@ + shape_yaml_head(s.view()));
}

fn push_shape_yaml_middle(out: &mut String, s: &Shape)
    ensures
        final(out)@ == old(out)@ + shape_yaml_middle(s.view()),
{
    push_yaml_list(out, "    ", "evidence_kind", s.evidence_kind.as_slice());
    push_yaml_list(out, "    ", "dependencies", s.dependencies.as_slice());
    push_yaml_list(out, "    ", "reads", s.reads.as_slice());
    push_yaml_list(out, "    ", "writes", s.writes.as_slice());
    push_yaml_field(out, "mutation_closure", s.mutation_closure);
    push_yaml_list(out, "    ", "guards", s.guards.as_slice());
    push_yaml_list(out, "    ", "refusals", s.refusals.as_slice());
    assert(final(out)@ =~= old(out)@ + shape_yaml_middle(s.view()));
}

fn push_shape_yaml_tail(out: &mut String, s: &Shape)
    ensures
        final(out)@ == old(out)@ + shape_yaml_tail(s.view()),
{
    push_yaml_field(out, "receipts", s.receipts);
    push_yaml_list(out, "    ", "invariants", s.invariants.as_slice());
    push_yaml_list(out, "    ", "parity_paths", s.parity_paths.as_slice());
    push_yaml_field(out, "source", s.source);
    push_yaml_list(out, "    ", "proof_refs", s.proof_refs.as_slice());
    push_values_yaml(out, &s.values);
    assert(final(out)@ =~= old(out)@ + shape_yaml_tail(s.view()));
}

fn push_shape_yaml(out: &mut String, s: &Shape)
    ensures
        final(out)@ == old(out)@ + shape_yaml(s.view()),
{
    push_shape_yaml_head(out, s);
    push_shape_yaml_middle(out, s);
    push_shape_yaml_tail(out, s);
    assert(final(out)@ =~= old(out)@ + shape_yaml(s.view()));
}

fn push_yaml_vocabularies(out: &mut String)
    ensures
        final(out)@ == old(out)@ + yaml_vocabularies(),
{
    push_yaml_list(out, "", "meaning_statuses", MEANING_STATUSES.as_slice());
    push_yaml_list(out, "", "evidence_kinds", EVIDENCE_KINDS.as_slice());
    let kinds = [ResourceKind::Fodder.code(), ResourceKind::Food.code(), ResourceKind::Timber.code()];
    proof {
        assert(texts(kinds@) =~= resource_kind_texts());
    }
    push_yaml_list(out, "", "resource_kinds", kinds.as_slice());
    proof {
        assert(""@ =~= Seq::<char>::empty()) by {
            reveal_strlit("");
        }
    }
    assert(final(out)@ =~= old(out)@ + yaml_vocabularies());
}

fn push_shapes_yaml(out: &mut String)
    ensures
        final(out)@ == old(out)@ + shapes_yaml(catalog()),
{
    let ghost before = out@;
    let all = shapes();
    let mut i: usize = 0;
    while i < all.len()
        invariant
            i <= all@.len(),
            all@.len() == catalog().len(),
            forall|j: int| 0 <= j < all@.len() ==> (#[trigger] all@[j]).view() == catalog()[j],
            out@ == before + shapes_yaml(catalog().take(i as int)),
        decreases all@.len() - i,
    {
        push_shape_yaml(out, &all[i]);
        proof {
            assert(catalog().take(i as int + 1).drop_last() =~= catalog().take(i as int));
            assert(out@ =~= before + shapes_yaml(catalog().take(i as int + 1)));
        }
        i = i + 1;
    }
    assert(catalog().take(catalog().len() as int) =~= catalog());
}

/// Deterministic YAML projection. Same commit, same output bytes.
pub fn emit_yaml(source_commit: &str) -> (r: String)
    ensures
        r@ == yaml_doc(source_commit@),
{
    let mut out = String::new();
    push_str(&mut out, YAML_HEADER);
    push_str(&mut out, "source_commit: \"");
    let ghost before = out@;
    push_str(&mut out, source_commit);
    let ghost middle = out@;
    push_str(&mut out, "\"\n");
    push_str(&mut out, "grammar: \"");
    push_hex(&mut out, grammar_fingerprint());
    push_str(&mut out, "\"\n");
    let ghost lines = out@;
    assert(lines =~= middle + yaml_grammar_lines());
    push_yaml_vocabularies(&mut out);
    let ghost vocab = out@;
    push_str(&mut out, "shapes:\n");
    let ghost heading = out@;
    push_shapes_yaml(&mut out);
    proof {
        assert(before =~= yaml_before_commit());
        assert(middle =~= yaml_before_commit() + source_commit@);
        assert(vocab =~= middle + (yaml_grammar_lines() + yaml_vocabularies()));
        assert(heading =~= middle + (yaml_grammar_lines() + yaml_vocabularies() + "shapes:\n"@));
        assert(out@ =~= middle + yaml_after_commit());
    }
    out
}

// ---------------------------------------------------------------------------
// HTML
// ---------------------------------------------------------------------------

/// The page up to its title's commit.
pub const PAGE_OPEN: &'static str = "<!doctype html><html lang=\"en\"><head><meta charset=\"utf-8\"><title>Truth shapes - ";

/// The style sheet and banner, up to the banner's commit.
pub const PAGE_STYLE: &'static str = "</title><style>body{font:15px/1.5 system-ui,sans-serif;margin:0;padding:2rem;background:#14161a;color:#e6e2d8;max-width:70rem;margin-inline:auto}.banner{border:1px solid #a8552f;background:#2a1c14;padding:.6rem 1rem;border-radius:8px;margin-bottom:1.5rem}.card{border:1px solid #33373f;border-radius:10px;padding:1rem 1.25rem;margin-bottom:1.5rem;background:#1a1d22}.card header{display:flex;gap:.75rem;align-items:baseline}h1{font-size:1.4rem} h2{font-size:1.15rem;margin:0}h3{font-size:.8rem;text-transform:uppercase;letter-spacing:.06em;color:#9aa3b2;margin:.9rem 0 .3rem}.kind{color:#9aa3b2;font-size:.85rem}.status{font-size:.75rem;padding:.1rem .5rem;border-radius:99px;border:1px solid #555;margin-left:auto}.status-ratified{border-color:#c9a227;color:#c9a227}.status-proven{border-color:#4f9d69;color:#7fc796}.status-measured{border-color:#4f7d9d;color:#7fb0c7}.status-fixture{border-color:#8a8578;color:#b5ad9c}.status-hypothesis{border-color:#9d7d4f;color:#c7a97f}.status-counterfactual{border-color:#9d4f6b;color:#c77f9d}.chip{display:inline-block;border:1px solid #3c414b;border-radius:6px;padding:0 .45rem;margin:.1rem .15rem .1rem 0;font-size:.85rem}.rw{display:grid;grid-template-columns:1fr 1fr;gap:1rem}.closure{border-left:3px solid #4f9d69;padding-left:.75rem}table{border-collapse:collapse} td{border:1px solid #33373f;padding:.25rem .6rem;font-size:.9rem}footer{color:#9aa3b2;font-size:.8rem;margin-top:.9rem}ul{margin:.2rem 0 .2rem 1.2rem;padding:0}</style></head><body><h1>Truth shapes</h1><div class=\"banner\"><strong>Non-authoritative review projection.</strong> The executable Rust code and its tests are authoritative; nothing reads this page or its YAML twin as an input. source_commit=";

/// The items, each between `open` and `close`, separated by `sep`.
pub open spec fn wrap_join(items: Seq<Seq<char>>, open: Seq<char>, close: Seq<char>, sep: Seq<char>) -> Seq<char>
    decreases items.len(),
{
    if items.len() == 0 {
        Seq::empty()
    } else if items.len() == 1 {
        open + items[0] + close
    } else {
        wrap_join(items.drop_last(), open, close, sep) + sep + open + items.last() + close
    }
}

/// Items as chips.
pub open spec fn chips(items: Seq<Seq<char>>) -> Seq<char> {
    wrap_join(items, "<span class=\"chip\">"@, "</span>"@, " "@)
}

/// Items as a comma-separated run of text.
pub open spec fn comma_list(items: Seq<Seq<char>>) -> Seq<char> {
    wrap_join(items, ""@, ""@, ", "@)
}

/// One status badge of the legend.
pub open spec fn status_badge(status: Seq<char>) -> Seq<char> {
    "<span class=\"status status-"@ + status + "\">"@ + status + "</span>"@
}

/// The legend: a badge for each status, space-separated.
pub open spec fn status_badges(statuses: Seq<Seq<char>>) -> Seq<char>
    decreases statuses.len(),
{
    if statuses.len() == 0 {
        Seq::empty()
    } else if statuses.len() == 1 {
        status_badge(statuses[0])
    } else {
        status_badges(statuses.drop_last()) + " "@ + status_badge(statuses.last())
    }
}

/// The table rows of a shape's values.
pub open spec fn value_rows(values: Seq<(Seq<char>, Seq<char>)>) -> Seq<char>
    decreases values.len(),
{
    if values.len() == 0 {
        Seq::empty()
    } else {
        value_rows(values.drop_last()) + "<tr><td>"@ + values.last().0 + "</td><td>"@ + values.last().1
            + "</td></tr>"@
    }
}

/// A shape's values table body, or a note that it has none.
pub open spec fn values_html(values: Seq<(Seq<char>, Seq<char>)>) -> Seq<char> {
    if values.len() == 0 {
        "<em>none - structural shape</em>"@
    } else {
        value_rows(values)
    }
}

/// A card's header, role and scope.
pub open spec fn card_head(s: ShapeModel) -> Seq<char> {
    "<section class=\"card\"><header><h2>"@ + s.id + "</h2><span class=\"kind\">"@ + s.kind
        + "</span><span class=\"status status-"@ + s.meaning_status + "\">"@ + s.meaning_status
        + "</span></header><p class=\"role\">"@ + s.role + "</p><p class=\"scope\"><strong>Scope:</strong> "@
        + s.scope
}

/// A card's reads, writes, closure and guards.
pub open spec fn card_access(s: ShapeModel) -> Seq<char> {
    "</p><div class=\"rw\"><div><h3>Reads</h3>"@ + chips(s.reads) + "</div><div><h3>Writes</h3>"@
        + chips(s.writes) + "</div></div><p class=\"closure\"><strong>Mutation closure:</strong> "@
        + s.mutation_closure + "</p><h3>Guards</h3><ul>"@ + wrap_join(s.guards, "<li>"@, "</li>"@, ""@)
}

/// A card's refusals, invariants and receipts.
pub open spec fn card_outcomes(s: ShapeModel) -> Seq<char> {
    "</ul><h3>Refusals</h3><p>"@ + chips(s.refusals) + "</p><h3>Invariants</h3><p>"@ + chips(s.invariants)
        + "</p><p><strong>Receipts:</strong> "@ + s.receipts
}

/// A card's parity, evidence, values and footer.
pub open spec fn card_foot(s: ShapeModel) -> Seq<char> {
    "</p><p><strong>Parity:</strong> "@ + comma_list(s.parity_paths) + " \u{b7} <strong>Evidence:</strong> "@
        + comma_list(s.evidence_kind) + "</p><h3>Values</h3><table>"@ + values_html(s.values)
        + "</table><footer>"@ + s.source + " \u{b7} proofs: "@ + comma_list(s.proof_refs)
        + "</footer></section>\n"@
}

/// One shape as a review card.
pub open spec fn shape_card(s: ShapeModel) -> Seq<char> {
    card_head(s) + card_access(s) + card_outcomes(s) + card_foot(s)
}

/// Every shape's card, in order.
pub open spec fn shape_cards(shapes: Seq<ShapeModel>) -> Seq<char>
    decreases shapes.len(),
{
    if shapes.len() == 0 {
        Seq::empty()
    } else {
        shape_cards(shapes.drop_last()) + shape_card(shapes.last())
    }
}

/// The characters after the second commit of the HTML page.
pub open spec fn html_after_commit() -> Seq<char> {
    html_grammar_legend() + shape_cards(catalog()) + "</body></html>\n"@
}

/// The banner's grammar and the status legend.
pub open spec fn html_grammar_legend() -> Seq<char> {
    " grammar="@ + hex_prefixed(grammar_fingerprint_spec()) + "</div><p>Meaning statuses (closed set): "@
        + status_badges(meaning_status_texts()) + "</p>"@
}

/// The whole HTML review page for a source commit.
pub open spec fn html_doc(source_commit: Seq<char>) -> Seq<char> {
    PAGE_OPEN@ + source_commit + PAGE_STYLE@ + source_commit + html_after_commit()
}

fn push_wrap_join(out: &mut String, items: &[&'static str], open: &str, close: &str, sep: &str)
    ensures
        final(out)@ == old(out)@ + wrap_join(texts(items@), open@, close@, sep@),
{
    let ghost start = out@;
    let mut i: usize = 0;
    while i < items.len()
        invariant
            i <= items@.len(),
            out@ == start + wrap_join(texts(items@.take(i as int)), open@, close@, sep@),
        decreases items@.len() - i,
    {
        if i > 0 {
            push_str(out, sep);
        }
        push_str(out, open);
        push_str(out, items[i]);
        push_str(out, close);
        proof {
            let t = texts(items@.take(i as int + 1));
            assert(t.drop_last() =~= texts(items@.take(i as int)));
            assert(t.last() == items@[i as int]@);
            if i == 0 {
                assert(t.len() == 1);
                assert(out@ =~= start + wrap_join(t, open@, close@, sep@));
            } else {
                assert(out@ =~= start + wrap_join(t, open@, close@, sep@));
            }
        }
        i = i + 1;
    }
    assert(items@.take(items@.len() as int) =~= items@);
}

fn push_status_badges(out: &mut String)
    ensures
        final(out)@ == old(out)@ + status_badges(meaning_status_texts()),
{
    let ghost start = out@;
    let items = MEANING_STATUSES.as_slice();
    let mut i: usize = 0;
    while i < items.len()
        invariant
            i <= items@.len(),
            items@ == MEANING_STATUSES@,
            out@ == start + status_badges(texts(items@.take(i as int))),
        decreases items@.len() - i,
    {
        if i > 0 {
            push_str(out, " ");
        }
        push_str(out, "<span class=\"status status-");
        push_str(out, items[i]);
        push_str(out, "\">");
        push_str(out, items[i]);
        push_str(out, "</span>");
        proof {
            let t = texts(items@.take(i as int + 1));
            assert(t.drop_last() =~= texts(items@.take(i as int)));
            assert(t.last() == items@[i as int]@);
            assert(out@ =~= start + status_badges(t));
        }
        i = i + 1;
    }
    assert(items@.take(items@.len() as int) =~= items@);
}

fn push_values_html(out: &mut String, values: &Vec<(&'static str, String)>)
    ensures
        final(out)@ == old(out)@ + values_html(values@.map_values(|v: (&'static str, String)| (v.0@, v.1@))),
{
    let ghost vs = values@.map_values(|v: (&'static str, String)| (v.0@, v.1@));
    if values.len() == 0 {
        push_str(out, "<em>none - structural shape</em>");
        return;
    }
    let ghost start = out@;
    let mut i: usize = 0;
    while i < values.len()
        invariant
            i <= values@.len(),
            values@.len() > 0,
            vs == values@.map_values(|v: (&'static str, String)| (v.0@, v.1@)),
            out@ == start + value_rows(vs.take(i as int)),
        decreases values@.len() - i,
    {
        push_str(out, "<tr><td>");
        push_str(out, values[i].0);
        push_str(out, "</td><td>");
        push_str(out, values[i].1.as_str());
        push_str(out, "</td></tr>");
        proof {
            assert(vs.take(i as int + 1).drop_last() =~= vs.take(i as int));
            assert(out@ =~= start + value_rows(vs.take(i as int + 1)));
        }
        i = i + 1;
    }
    assert(vs.take(vs.len() as int) =~= vs);
}

fn push_card_head(out: &mut String, s: &Shape)
    ensures
        final(out)@ == old(out)@ + card_head(s.view()),
{
    push_str(out, "<section class=\"card\"><header><h2>");
    push_str(out, s.id);
    push_str(out, "</h2><span class=\"kind\">");
    push_str(out, s.kind);
    push_str(out, "</span><span class=\"status status-");
    push_str(out, s.meaning_status);
    push_str(out, "\">");
    push_str(out, s.meaning_status);
    push_str(out, "</span></header><p class=\"role\">");
    push_str(out, s.role);
    push_str(out, "</p><p class=\"scope\"><strong>Scope:</strong> ");
    push_str(out, s.scope);
    assert(final(out)@ =~= old(out)@ + card_head(s.view()));
}

fn push_card_access(out: &mut String, s: &Shape)
    ensures
        final(out)@ == old(out)@ + card_access(s.view()),
{
    push_str(out, "</p><div class=\"rw\"><div><h3>Reads</h3>");
    push_wrap_join(out, s.reads.as_slice(), "<span class=\"chip\">", "</span>", " ");
    push_str(out, "</div><div><h3>Writes</h3>");
    push_wrap_join(out, s.writes.as_slice(), "<span class=\"chip\">", "</span>", " ");
    push_str(out, "</div></div><p class=\"closure\"><strong>Mutation closure:</strong> ");
    push_str(out, s.mutation_closure);
    push_str(out, "</p><h3>Guards</h3><ul>");
    push_wrap_join(out, s.guards.as_slice(), "<li>", "</li>", "");
    assert(final(out)@ =~= old(out)@ + card_access(s.view()));
}

fn push_card_outcomes(out: &mut String, s: &Shape)
    ensures
        final(out)@ == old(out)@ + card_outcomes(s.view()),
{
    push_str(out, "</ul><h3>Refusals</h3><p>");
    push_wrap_join(out, s.refusals.as_slice(), "<span class=\"chip\">", "</span>", " ");
    push_str(out, "</p><h3>Invariants</h3><p>");
    push_wrap_join(out, s.invariants.as_slice(), "<span class=\"chip\">", "</span>", " ");
    push_str(out, "</p><p><strong>Receipts:</strong> ");
    push_str(out, s.receipts);
    assert(final(out)@ =~= old(out)@ + card_outcomes(s.view()));
}

fn push_card_foot(out: &mut String, s: &Shape)
    ensures
        final(out)@ == old(out)@ + card_foot(s.view()),
{
    push_str(out, "</p><p><strong>Parity:</strong> ");
    push_wrap_join(out, s.parity_paths.as_slice(), "", "", ", ");
    push_str(out, " \u{b7} <strong>Evidence:</strong> ");
    push_wrap_join(out, s.evidence_kind.as_slice(), "", "", ", ");
    push_str(out, "</p><h3>Values</h3><table>");
    push_values_html(out, &s.values);
    push_str(out, "</table><footer>");
    push_str(out, s.source);
    push_str(out, " \u{b7} proofs: ");
    push_wrap_join(out, s.proof_refs.as_slice(), "", "", ", ");
    push_str(out, "</footer></section>\n");
    assert(final(out)@ =~= old(out)@ + card_foot(s.view()));
}

fn push_shape_card(out: &mut String, s: &Shape)
    ensures
        final(out)@ == old(out)@ + shape_card(s.view()),
{
    push_card_head(out, s);
    push_card_access(out, s);
    push_card_outcomes(out, s);
    push_card_foot(out, s);
    assert(final(out)@ =~= old(out)@ + shape_card(s.view()));
}

fn push_shape_cards(out: &mut String)
    ensures
        final(out)@ == old(out)@ + shape_cards(catalog()),
{
    let ghost before = out@;
    let all = shapes();
    let mut i: usize = 0;
    while i < all.len()
        invariant
            i <= all@.len(),
            all@.len() == catalog().len(),
            forall|j: int| 0 <= j < all@.len() ==> (#[trigger] all@[j]).view() == catalog()[j],
            out@ == before + shape_cards(catalog().take(i as int)),
        decreases all@.len() - i,
    {
        push_shape_card(out, &all[i]);
        proof {
            assert(catalog().take(i as int + 1).drop_last() =~= catalog().take(i as int));
            assert(out@ =~= before + shape_cards(catalog().take(i as int + 1)));
        }
        i = i + 1;
    }
    assert(catalog().take(catalog().len() as int) =~= catalog());
}

/// Non-authoritative HTML review projection of the same shapes.
pub fn emit_html(source_commit: &str) -> (r: String)
    ensures
        r@ == html_doc(source_commit@),
{
    let mut out = String::new();
    push_str(&mut out, PAGE_OPEN);
    push_str(&mut out, source_commit);
    push_str(&mut out, PAGE_STYLE);
    push_str(&mut out, source_commit);
    let ghost head = out@;
    push_str(&mut out, " grammar=");
    push_hex(&mut out, grammar_fingerprint());
    push_str(&mut out, "</div><p>Meaning statuses (closed set): ");
    push_status_badges(&mut out);
    push_str(&mut out, "</p>");
    let ghost legend = out@;
    assert(legend =~= head + html_grammar_legend());
    push_shape_cards(&mut out);
    let ghost cards = out@;
    assert(cards =~= head + (html_grammar_legend() + shape_cards(catalog())));
    push_str(&mut out, "</body></html>\n");
    proof {
        assert(head =~= PAGE_OPEN@ + source_commit@ + PAGE_STYLE@ + source_commit@);
        assert(out@ =~= head + html_after_commit());
    }
    out
}

// ---------------------------------------------------------------------------
// Laws
// ---------------------------------------------------------------------------

/// A middle part between a fixed prefix and a fixed suffix is determined
/// by the whole.
proof fn lemma_middle_determined(pre: Seq<char>, post: Seq<char>, c1: Seq<char>, c2: Seq<char>)
    requires
        pre + c1 + post == pre + c2 + post,
    ensures
        c1 == c2,
{
    let w1 = pre + c1 + post;
    let w2 = pre + c2 + post;
    assert(w1.len() == w2.len());
    assert(w1.len() == (pre + c1).len() + post.len());
    assert(w2.len() == (pre + c2).len() + post.len());
    assert(c1.len() == c2.len());
    assert forall|i: int| 0 <= i < c1.len() implies c1[i] == c2[i] by {
        assert(w1[pre.len() + i] == c1[i]);
        assert(w2[pre.len() + i] == c2[i]);
    }
    assert(c1 =~= c2);
}

/// The YAML projection is addressed by its commit: two different commits
/// never give the same bytes.
pub proof fn law_yaml_is_commit_addressed(c1: Seq<char>, c2: Seq<char>)
    requires
        c1 != c2,
    ensures
        yaml_doc(c1) != yaml_doc(c2),
{
    if yaml_doc(c1) == yaml_doc(c2) {
        lemma_middle_determined(yaml_before_commit(), yaml_after_commit(), c1, c2);
    }
}

/// The HTML page is addressed by its commit in the same way.
pub proof fn law_html_is_commit_addressed(c1: Seq<char>, c2: Seq<char>)
    requires
        c1 != c2,
    ensures
        html_doc(c1) != html_doc(c2),
{
    if html_doc(c1) == html_doc(c2) {
        let pre = PAGE_OPEN@;
        let post = html_after_commit();
        let w1 = html_doc(c1);
        let w2 = html_doc(c2);
        assert(w1.len() == pre.len() + 2 * c1.len() + PAGE_STYLE@.len() + post.len());
        assert(w2.len() == pre.len() + 2 * c2.len() + PAGE_STYLE@.len() + post.len());
        assert(c1.len() == c2.len());
        assert forall|i: int| 0 <= i < c1.len() implies c1[i] == c2[i] by {
            assert(w1[pre.len() + i] == c1[i]);
            assert(w2[pre.len() + i] == c2[i]);
        }
        assert(c1 =~= c2);
    }
}

/// Every shape draws its meaning status and its evidence kinds from the
/// closed vocabularies.
pub proof fn law_shapes_use_the_closed_vocabularies()
    ensures
        forall|i: int| 0 <= i < catalog().len() ==> meaning_status_texts().contains(
            #[trigger] catalog()[i].meaning_status,
        ),
        forall|i: int, j: int|
            0 <= i < catalog().len() && 0 <= j < catalog()[i].evidence_kind.len()
                ==> evidence_kind_texts().contains(#[trigger] catalog()[i].evidence_kind[j]),
{
    reveal(catalog);
    assert(meaning_status_texts()[1] == "proven"@);
    assert(evidence_kind_texts()[0] == "behavioral-red"@);
    assert(evidence_kind_texts()[1] == "capability-red"@);
    assert(evidence_kind_texts()[2] == "measurement"@);
    assert(evidence_kind_texts()[3] == "oracle"@);
    assert(evidence_kind_texts()[4] == "parity"@);
}

/// `needle` occurs in `hay` as a contiguous run of characters.
pub open spec fn appears_in(needle: Seq<char>, hay: Seq<char>) -> bool {
    exists|k: int| 0 <= k && k + needle.len() <= hay.len() && #[trigger] hay.subrange(k, k + needle.len()) == needle
}

proof fn lemma_appears_left(x: Seq<char>, a: Seq<char>, b: Seq<char>)
    requires
        appears_in(x, a),
    ensures
        appears_in(x, a + b),
{
    let k = choose|k: int| 0 <= k && k + x.len() <= a.len() && #[trigger] a.subrange(k, k + x.len()) == x;
    assert((a + b).subrange(k, k + x.len()) =~= a.subrange(k, k + x.len()));
}

proof fn lemma_appears_right(x: Seq<char>, a: Seq<char>, b: Seq<char>)
    requires
        appears_in(x, b),
    ensures
        appears_in(x, a + b),
{
    let k = choose|k: int| 0 <= k && k + x.len() <= b.len() && #[trigger] b.subrange(k, k + x.len()) == x;
    assert((a + b).subrange(a.len() + k, a.len() + k + x.len()) =~= b.subrange(k, k + x.len()));
}

proof fn lemma_appears_self(x: Seq<char>)
    ensures
        appears_in(x, x),
{
    let k: int = 0;
    assert(x.subrange(k, k + x.len()) =~= x);
}

/// Every item appears among its quoted lines.
proof fn lemma_item_quoted(indent: Seq<char>, items: Seq<Seq<char>>, j: int)
    requires
        0 <= j < items.len(),
    ensures
        appears_in(items[j], quoted_lines(indent, items)),
    decreases items.len(),
{
    let x = items[j];
    if j == items.len() - 1 {
        lemma_appears_self(x);
        lemma_appears_right(x, indent + "  - \""@, x);
        lemma_appears_left(x, indent + "  - \""@ + x, "\"\n"@);
        lemma_appears_right(x, quoted_lines(indent, items.drop_last()), quoted_line(indent, x));
    } else {
        lemma_item_quoted(indent, items.drop_last(), j);
        lemma_appears_left(x, quoted_lines(indent, items.drop_last()), quoted_line(indent, items.last()));
    }
}

/// Every item of a YAML list appears in it.
proof fn lemma_item_listed(indent: Seq<char>, name: Seq<char>, items: Seq<Seq<char>>, j: int)
    requires
        0 <= j < items.len(),
    ensures
        appears_in(items[j], yaml_list_text(indent, name, items)),
{
    lemma_item_quoted(indent, items, j);
    lemma_appears_right(items[j], indent + name + ":\n"@, quoted_lines(indent, items));
}

/// Every shape's entry appears in the YAML of a list of shapes.
proof fn lemma_shape_listed(x: Seq<char>, shapes: Seq<ShapeModel>, i: int)
    requires
        0 <= i < shapes.len(),
        appears_in(x, shape_yaml(shapes[i])),
    ensures
        appears_in(x, shapes_yaml(shapes)),
    decreases shapes.len(),
{
    if i == shapes.len() - 1 {
        lemma_appears_right(x, shapes_yaml(shapes.drop_last()), shape_yaml(shapes.last()));
    } else {
        lemma_shape_listed(x, shapes.drop_last(), i);
        lemma_appears_left(x, shapes_yaml(shapes.drop_last()), shape_yaml(shapes.last()));
    }
}

/// What appears in a shape's entry appears in the projection, whatever
/// the commit.
proof fn lemma_catalog_text_projected(x: Seq<char>, i: int, commit: Seq<char>)
    requires
        0 <= i < catalog().len(),
        appears_in(x, shape_yaml(catalog()[i])),
    ensures
        appears_in(x, yaml_doc(commit)),
{
    lemma_shape_listed(x, catalog(), i);
    lemma_appears_right(
        x,
        yaml_grammar_lines() + yaml_vocabularies() + "shapes:\n"@,
        shapes_yaml(catalog()),
    );
    lemma_appears_right(x, yaml_before_commit() + commit, yaml_after_commit());
}

/// A refusal listed by a shape appears in the projection.
proof fn lemma_refusal_projected(i: int, j: int, commit: Seq<char>)
    requires
        0 <= i < catalog().len(),
        0 <= j < catalog()[i].refusals.len(),
    ensures
        appears_in(catalog()[i].refusals[j], yaml_doc(commit)),
{
    let s = catalog()[i];
    let x = s.refusals[j];
    lemma_item_listed("    "@, "refusals"@, s.refusals, j);
    let lists = yaml_list_text("    "@, "evidence_kind"@, s.evidence_kind)
        + yaml_list_text("    "@, "dependencies"@, s.dependencies)
        + yaml_list_text("    "@, "reads"@, s.reads)
        + yaml_list_text("    "@, "writes"@, s.writes)
        + yaml_field("mutation_closure"@, s.mutation_closure)
        + yaml_list_text("    "@, "guards"@, s.guards);
    lemma_appears_right(x, lists, yaml_list_text("    "@, "refusals"@, s.refusals));
    lemma_appears_right(x, shape_yaml_head(s), shape_yaml_middle(s));
    lemma_appears_left(x, shape_yaml_head(s) + shape_yaml_middle(s), shape_yaml_tail(s));
    lemma_catalog_text_projected(x, i, commit);
}

/// The verbs' shapes open the catalog.
proof fn lemma_catalog_verbs()
    ensures
        catalog().len() == 7,
        catalog()[0] == gather_model(),
        catalog()[1] == witness_model(),
        catalog()[2] == give_model(),
{
    reveal(catalog);
}

/// Every refusal reason is one that a verb's shape lists.
proof fn lemma_refusals_projected(r: RefusalReason, commit: Seq<char>)
    ensures
        appears_in(refusal_code(r), yaml_doc(commit)),
{
    lemma_catalog_verbs();
    match r {
        RefusalReason::UnknownClaim => lemma_refusal_projected(0, 0, commit),
        RefusalReason::ClaimNotHeldByActor => lemma_refusal_projected(0, 1, commit),
        RefusalReason::ClaimSiteMismatch => lemma_refusal_projected(0, 2, commit),
        RefusalReason::ClaimNotWitnessed => lemma_refusal_projected(0, 3, commit),
        RefusalReason::UnknownActor => lemma_refusal_projected(0, 4, commit),
        RefusalReason::ActorExhausted => lemma_refusal_projected(0, 5, commit),
        RefusalReason::InsufficientStamina => lemma_refusal_projected(0, 6, commit),
        RefusalReason::UnknownSite => lemma_refusal_projected(0, 7, commit),
        RefusalReason::SiteEmpty => lemma_refusal_projected(0, 8, commit),
        RefusalReason::CannotWitnessOwnClaim => lemma_refusal_projected(1, 1, commit),
        RefusalReason::ClaimAlreadyWitnessed => lemma_refusal_projected(1, 2, commit),
        RefusalReason::CannotGiveToSelf => lemma_refusal_projected(2, 0, commit),
        RefusalReason::UnknownRecipient => lemma_refusal_projected(2, 1, commit),
        RefusalReason::UnknownWitness => lemma_refusal_projected(2, 2, commit),
        RefusalReason::WitnessIsParty => lemma_refusal_projected(2, 3, commit),
        RefusalReason::EmptyTransfer => lemma_refusal_projected(2, 4, commit),
        RefusalReason::InsufficientHolding => lemma_refusal_projected(2, 7, commit),
    }
}

/// The partial reason is named in the gather shape's receipt line.
proof fn lemma_partials_projected(p: PartialReason, commit: Seq<char>)
    ensures
        appears_in(partial_code(p), yaml_doc(commit)),
{
    lemma_catalog_verbs();
    let s = gather_model();
    let x = partial_code(p);
    reveal_strlit("site_nearly_depleted");
    reveal_strlit(
        "canonical line with band, tier, kind, spent, mass, grammar, and the world hash chain; partial via site_nearly_depleted",
    );
    let n = s.receipts.len() as int;
    let k: int = n - 20;
    assert(s.receipts.subrange(k, k + x.len()) =~= x);
    assert(appears_in(x, s.receipts));
    lemma_appears_right(x, "    "@ + "receipts"@ + ": \""@, s.receipts);
    lemma_appears_left(x, "    "@ + "receipts"@ + ": \""@ + s.receipts, "\"\n"@);
    let rest = yaml_list_text("    "@, "invariants"@, s.invariants)
        + yaml_list_text("    "@, "parity_paths"@, s.parity_paths)
        + yaml_field("source"@, s.source)
        + yaml_list_text("    "@, "proof_refs"@, s.proof_refs)
        + values_yaml(s.values);
    assert(shape_yaml_tail(s) =~= yaml_field("receipts"@, s.receipts) + rest);
    lemma_appears_left(x, yaml_field("receipts"@, s.receipts), rest);
    lemma_appears_right(x, shape_yaml_head(s) + shape_yaml_middle(s), shape_yaml_tail(s));
    lemma_catalog_text_projected(x, 0, commit);
}

/// Every closed refusal reason and every partial reason is named in the
/// YAML projection, whatever the commit: a reason admitted in code cannot
/// be missing from the projection.
pub proof fn law_projection_covers_the_closed_vocabulary(commit: Seq<char>)
    ensures
        forall|r: RefusalReason| appears_in(#[trigger] refusal_code(r), yaml_doc(commit)),
        forall|p: PartialReason| appears_in(#[trigger] partial_code(p), yaml_doc(commit)),
{
    assert forall|r: RefusalReason| appears_in(#[trigger] refusal_code(r), yaml_doc(commit)) by {
        lemma_refusals_projected(r, commit);
    }
    assert forall|p: PartialReason| appears_in(#[trigger] partial_code(p), yaml_doc(commit)) by {
        lemma_partials_projected(p, commit);
    }
}

} // verus!
