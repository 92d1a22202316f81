//! Truth-layer boundary: the orchestrator that runs every validation
//! before any owner apply, and the proof envelope of a run.
//!
//! Verb policy lives here, not in the owners: the boundary maps stamina to
//! a band, decides the gather cost, and refuses exhausted actors. Owners
//! only enforce their own resource semantics (existence, bounds, exact
//! deltas).
//!
//! A plan holds the proof tokens of every owner it touches; its commit
//! phase consumes them by value, so a plan commits at most once, and its
//! contract demands every token be fresh before any owner mutates.

use vstd::prelude::*;

pub use crate::character::{CharacterOwner, StaminaSpend};
pub use crate::command::{Command, GatherCommand, GiveCommand, WitnessCommand};
pub use crate::economy::{EconomyOwner, Extraction, Transfer};
pub use crate::fnv::Fnv1a;
pub use crate::grammar::{
    command_encoding, command_encoding_fingerprint, grammar_fingerprint, receipt_format_fingerprint,
    CELL_COLS, CELL_ROWS, GIVE_COST, RECEIPT_FIELDS, STAMINA_COST_BY_BAND, WITNESS_COST,
    YIELD_TABLE_GRAMS,
};
pub use crate::receipt::Receipt;
pub use crate::seam::{parse_text_command, TextCommandFault};
pub use crate::social::{SocialOwner, WitnessGrant, WitnessPass};
pub use crate::vocab::{
    CharacterId, ClaimId, FixtureFault, InfraTier, MassGrams, OutcomeKind, PartialReason,
    RefusalReason, ResourceKind, SiteId, Stamina, StaminaBand, Verb, KIND_COUNT,
};
pub use crate::world::{validate_world_coherence, World};

use crate::character::{
    apply_spend_spec, spend_fresh_spec, stamina_of, validate_spend_spec, CharacterModel, SpendFacts,
};
use crate::command::command_bytes;
use crate::economy::{
    apply_extract_spec, apply_transfer_spec, economy_wf, extraction_fresh_spec, holding_of,
    lemma_holding_bounded, lemma_site_bounded, lemma_two_holdings_bounded, lemma_weights_nonneg,
    law_extraction_conserves_mass, law_transfer_conserves_mass, site_of, total_mass_spec,
    total_of_kind, transfer_fresh_spec, validate_extract_spec, validate_transfer_spec, ExtractFacts,
    TransferFacts,
};
use crate::fnv::{
    be8, fnv_fold, fnv_hash, hash_bytes, lemma_fnv_fold_concat, push_be8, push_bytes, FNV_OFFSET,
};
use crate::grammar::{ascii_bytes, gather_cost, grammar_fingerprint_spec, push_ascii, yield_cell};
use crate::receipt::receipt_line;
use crate::social::{
    apply_witness_spec, claim_of, grant_fresh_spec, witness_gate_spec, witness_grant_spec, GrantFacts,
    SocialModel,
};
use crate::sums::lemma_sum_nonneg;
use crate::vocab::{
    band_index, band_of, lemma_mass_eq, lemma_stamina_eq, mass_from, stamina_from, tier_index,
};
use crate::world::{world_hash_spec, world_headroom, world_wf, WorldModel};

verus! {

// ---------------------------------------------------------------------------
// Gather
// ---------------------------------------------------------------------------

/// What a fully validated gather carries.
pub struct GatherPlanFacts {
    pub claim: u64,
    pub spend: SpendFacts,
    pub extraction: ExtractFacts,
    pub partial: Option<PartialReason>,
    pub band: StaminaBand,
    pub tier: InfraTier,
    pub kind: ResourceKind,
}

/// The gather verb's gates, in order: social (claim exists, held by the
/// actor, covers the site, witnessed), then character (actor exists, not
/// exhausted, exact headroom for the band's cost), then economy (site
/// exists and holds stock; the request is the active cell's yield for the
/// actor's band and the site's tier).
pub open spec fn plan_gather_spec(w: WorldModel, cmd: GatherCommand) -> Result<
    GatherPlanFacts,
    RefusalReason,
> {
    match witness_gate_spec(w.social, cmd.claim.0, cmd.actor.0, cmd.site.0) {
        Err(e) => Err(e),
        Ok(claim) => match stamina_of(w.characters, cmd.actor.0) {
            None => Err(RefusalReason::UnknownActor),
            Some(points) => {
                let band = band_of(points as int);
                if band == StaminaBand::Exhausted {
                    Err(RefusalReason::ActorExhausted)
                } else {
                    match validate_spend_spec(
                        w.characters,
                        cmd.actor.0,
                        gather_cost(band_index(band)),
                    ) {
                        Err(e) => Err(e),
                        Ok(spend) => match site_of(w.economy, cmd.site.0) {
                            None => Err(RefusalReason::UnknownSite),
                            Some(site) => {
                                let requested = yield_cell(band_index(band), tier_index(site.tier));
                                match validate_extract_spec(
                                    w.economy,
                                    cmd.site.0,
                                    cmd.actor.0,
                                    requested,
                                ) {
                                    Err(e) => Err(e),
                                    Ok(extraction) => Ok(
                                        GatherPlanFacts {
                                            claim,
                                            spend,
                                            extraction,
                                            partial: if extraction.granted < requested {
                                                Some(PartialReason::SiteNearlyDepleted)
                                            } else {
                                                None
                                            },
                                            band,
                                            tier: site.tier,
                                            kind: extraction.kind,
                                        },
                                    ),
                                }
                            },
                        },
                    }
                }
            },
        },
    }
}

/// Every token of a gather plan is fresh and its commit cannot fail.
pub open spec fn gather_plan_ready(w: WorldModel, p: GatherPlanFacts) -> bool {
    &&& spend_fresh_spec(w.characters, p.spend)
    &&& stamina_of(w.characters, p.spend.id) matches Some(points) && p.spend.cost <= points
    &&& extraction_fresh_spec(w.economy, p.extraction)
    &&& site_of(w.economy, p.extraction.site) matches Some(s) && p.extraction.granted <= s.stock
    &&& holding_of(w.economy, p.extraction.to, p.extraction.kind) + p.extraction.granted <= u64::MAX
}

/// The world after a gather commits: the actor pays, the site drains into
/// the actor's holding, social state is untouched.
pub open spec fn apply_gather_spec(w: WorldModel, p: GatherPlanFacts) -> WorldModel {
    WorldModel {
        characters: apply_spend_spec(w.characters, p.spend),
        economy: apply_extract_spec(w.economy, p.extraction),
        social: w.social,
    }
}

/// A fully validated gather. Holding one proves every owner approved its
/// part against its current revision; the tokens are consumed on commit.
pub struct GatherPlan {
    witness: WitnessPass,
    spend: StaminaSpend,
    extraction: Extraction,
    partial: Option<PartialReason>,
    band: StaminaBand,
    tier: InfraTier,
    kind: ResourceKind,
}

impl GatherPlan {
    pub closed spec fn view(&self) -> GatherPlanFacts {
        GatherPlanFacts {
            claim: self.witness@,
            spend: self.spend@,
            extraction: self.extraction@,
            partial: self.partial,
            band: self.band,
            tier: self.tier,
            kind: self.kind,
        }
    }

    /// Commit phase for a planned gather: the one place a multi-owner plan
    /// mutates the world. Consumes the plan by value — at most one commit
    /// per plan — and requires every token fresh before any owner mutates.
    pub fn apply(self, world: &mut World)
        requires
            old(world).wf(),
            world_headroom(old(world)@),
            gather_plan_ready(old(world)@, self@),
        ensures
            final(world).wf(),
            final(world)@ == apply_gather_spec(old(world)@, self@),
    {
        let ghost p = self@;
        world.characters.apply_spend(self.spend);
        world.economy.apply_extract(self.extraction);
    }
}

pub fn plan_gather(world: &World, cmd: &GatherCommand) -> (r: Result<GatherPlan, RefusalReason>)
    requires
        world.wf(),
    ensures
        match r {
            Ok(p) => plan_gather_spec(world@, *cmd) == Ok::<GatherPlanFacts, RefusalReason>(p@),
            Err(e) => plan_gather_spec(world@, *cmd) == Err::<GatherPlanFacts, RefusalReason>(e),
        },
{
    // 1. Social gate.
    let witness = match world.social.validate_witness_gate(cmd.claim, cmd.actor, cmd.site) {
        Ok(p) => p,
        Err(e) => return Err(e),
    };
    // 2. Character gate: verb policy first (band, exhausted), then the
    //    owner's exact headroom for the band's cost.
    let stamina = match world.characters.stamina(cmd.actor) {
        Some(s) => s,
        None => return Err(RefusalReason::UnknownActor),
    };
    let band = stamina.band();
    if band == StaminaBand::Exhausted {
        return Err(RefusalReason::ActorExhausted);
    }
    let cost = STAMINA_COST_BY_BAND[band.index()];
    let spend = match world.characters.validate_spend(cmd.actor, cost) {
        Ok(s) => s,
        Err(e) => return Err(e),
    };
    // 3. Economy gate: the request comes from the single active cell.
    let tier = match world.economy.tier(cmd.site) {
        Some(t) => t,
        None => return Err(RefusalReason::UnknownSite),
    };
    let row = YIELD_TABLE_GRAMS[band.index()];
    let requested = MassGrams::new(row[tier.index()]);
    let extraction = match world.economy.validate_extract(cmd.site, cmd.actor, requested) {
        Ok(e) => e,
        Err(e) => return Err(e),
    };
    let partial = if extraction.granted().grams() < requested.grams() {
        Some(PartialReason::SiteNearlyDepleted)
    } else {
        None
    };
    let kind = extraction.kind();
    Ok(GatherPlan { witness, spend, extraction, partial, band, tier, kind })
}

// ---------------------------------------------------------------------------
// Witness
// ---------------------------------------------------------------------------

/// What a fully validated witness attestation carries.
pub struct WitnessPlanFacts {
    pub grant: GrantFacts,
    pub spend: SpendFacts,
}

/// The witness verb's gates, in order: social (claim exists, not the
/// witness's own, not already witnessed), then character (flat cost, no
/// exhausted gate). The economy is untouched.
pub open spec fn plan_witness_spec(w: WorldModel, cmd: WitnessCommand) -> Result<
    WitnessPlanFacts,
    RefusalReason,
> {
    match witness_grant_spec(w.social, cmd.claim.0, cmd.witness.0) {
        Err(e) => Err(e),
        Ok(grant) => match validate_spend_spec(w.characters, cmd.witness.0, WITNESS_COST) {
            Err(e) => Err(e),
            Ok(spend) => Ok(WitnessPlanFacts { grant, spend }),
        },
    }
}

pub open spec fn witness_plan_ready(w: WorldModel, p: WitnessPlanFacts) -> bool {
    &&& spend_fresh_spec(w.characters, p.spend)
    &&& stamina_of(w.characters, p.spend.id) matches Some(points) && p.spend.cost <= points
    &&& grant_fresh_spec(w.social, p.grant)
    &&& claim_of(w.social, p.grant.claim) is Some
}

pub open spec fn apply_witness_plan_spec(w: WorldModel, p: WitnessPlanFacts) -> WorldModel {
    WorldModel {
        characters: apply_spend_spec(w.characters, p.spend),
        economy: w.economy,
        social: apply_witness_spec(w.social, p.grant),
    }
}

/// A fully validated witness attestation.
pub struct WitnessPlan {
    grant: WitnessGrant,
    spend: StaminaSpend,
}

impl WitnessPlan {
    pub closed spec fn view(&self) -> WitnessPlanFacts {
        WitnessPlanFacts { grant: self.grant@, spend: self.spend@ }
    }

    /// Commit phase for a planned witness attestation.
    pub fn apply(self, world: &mut World)
        requires
            old(world).wf(),
            world_headroom(old(world)@),
            witness_plan_ready(old(world)@, self@),
        ensures
            final(world).wf(),
            final(world)@ == apply_witness_plan_spec(old(world)@, self@),
    {
        world.characters.apply_spend(self.spend);
        world.social.apply_witness(self.grant);
    }
}

pub fn plan_witness(world: &World, cmd: &WitnessCommand) -> (r: Result<WitnessPlan, RefusalReason>)
    requires
        world.wf(),
    ensures
        match r {
            Ok(p) => plan_witness_spec(world@, *cmd) == Ok::<WitnessPlanFacts, RefusalReason>(p@),
            Err(e) => plan_witness_spec(world@, *cmd) == Err::<WitnessPlanFacts, RefusalReason>(e),
        },
{
    let grant = match world.social.validate_witness_grant(cmd.claim, cmd.witness) {
        Ok(g) => g,
        Err(e) => return Err(e),
    };
    let spend = match world.characters.validate_spend(cmd.witness, WITNESS_COST) {
        Ok(s) => s,
        Err(e) => return Err(e),
    };
    Ok(WitnessPlan { grant, spend })
}

// ---------------------------------------------------------------------------
// Give
// ---------------------------------------------------------------------------

/// What a fully validated give carries.
pub struct GivePlanFacts {
    pub spend: SpendFacts,
    pub transfer: TransferFacts,
}

/// The give verb's gates, in order: parties (distinct giver and recipient,
/// recipient exists, a named witness exists and is neither party, nonzero
/// mass), then character (flat cost, no exhausted gate), then economy (the
/// giver holds the named mass of the named kind, exactly).
pub open spec fn plan_give_spec(w: WorldModel, cmd: GiveCommand) -> Result<
    GivePlanFacts,
    RefusalReason,
> {
    if cmd.giver.0 == cmd.recipient.0 {
        Err(RefusalReason::CannotGiveToSelf)
    } else if stamina_of(w.characters, cmd.recipient.0) is None {
        Err(RefusalReason::UnknownRecipient)
    } else if cmd.witness matches Some(x) && stamina_of(w.characters, x.0) is None {
        Err(RefusalReason::UnknownWitness)
    } else if cmd.witness matches Some(x) && (x.0 == cmd.giver.0 || x.0 == cmd.recipient.0) {
        Err(RefusalReason::WitnessIsParty)
    } else if cmd.grams@ == 0 {
        Err(RefusalReason::EmptyTransfer)
    } else {
        match validate_spend_spec(w.characters, cmd.giver.0, GIVE_COST) {
            Err(e) => Err(e),
            Ok(spend) => match validate_transfer_spec(
                w.economy,
                cmd.giver.0,
                cmd.recipient.0,
                cmd.kind,
                cmd.grams@,
            ) {
                Err(e) => Err(e),
                Ok(transfer) => Ok(GivePlanFacts { spend, transfer }),
            },
        }
    }
}

pub open spec fn give_plan_ready(w: WorldModel, p: GivePlanFacts) -> bool {
    &&& spend_fresh_spec(w.characters, p.spend)
    &&& stamina_of(w.characters, p.spend.id) matches Some(points) && p.spend.cost <= points
    &&& transfer_fresh_spec(w.economy, p.transfer)
    &&& p.transfer.grams <= holding_of(w.economy, p.transfer.from, p.transfer.kind)
    &&& holding_of(w.economy, p.transfer.to, p.transfer.kind) + p.transfer.grams <= u64::MAX
}

pub open spec fn apply_give_spec(w: WorldModel, p: GivePlanFacts) -> WorldModel {
    WorldModel {
        characters: apply_spend_spec(w.characters, p.spend),
        economy: apply_transfer_spec(w.economy, p.transfer),
        social: w.social,
    }
}

/// A fully validated give.
pub struct GivePlan {
    spend: StaminaSpend,
    transfer: Transfer,
}

impl GivePlan {
    pub closed spec fn view(&self) -> GivePlanFacts {
        GivePlanFacts { spend: self.spend@, transfer: self.transfer@ }
    }

    /// Commit phase for a planned transfer. The social owner is untouched:
    /// witnessing a give is receipted, never stateful.
    pub fn apply(self, world: &mut World)
        requires
            old(world).wf(),
            world_headroom(old(world)@),
            give_plan_ready(old(world)@, self@),
        ensures
            final(world).wf(),
            final(world)@ == apply_give_spec(old(world)@, self@),
    {
        world.characters.apply_spend(self.spend);
        world.economy.apply_transfer(self.transfer);
    }
}

pub fn plan_give(world: &World, cmd: &GiveCommand) -> (r: Result<GivePlan, RefusalReason>)
    requires
        world.wf(),
    ensures
        match r {
            Ok(p) => plan_give_spec(world@, *cmd) == Ok::<GivePlanFacts, RefusalReason>(p@),
            Err(e) => plan_give_spec(world@, *cmd) == Err::<GivePlanFacts, RefusalReason>(e),
        },
{
    if cmd.giver == cmd.recipient {
        return Err(RefusalReason::CannotGiveToSelf);
    }
    if world.characters.stamina(cmd.recipient).is_none() {
        return Err(RefusalReason::UnknownRecipient);
    }
    match cmd.witness {
        Some(witness) => {
            if world.characters.stamina(witness).is_none() {
                return Err(RefusalReason::UnknownWitness);
            }
            if witness == cmd.giver || witness == cmd.recipient {
                return Err(RefusalReason::WitnessIsParty);
            }
        },
        None => {},
    }
    if cmd.grams.is_zero() {
        return Err(RefusalReason::EmptyTransfer);
    }
    let spend = match world.characters.validate_spend(cmd.giver, GIVE_COST) {
        Ok(s) => s,
        Err(e) => return Err(e),
    };
    let transfer = match world.economy.validate_transfer(cmd.giver, cmd.recipient, cmd.kind, cmd.grams) {
        Ok(t) => t,
        Err(e) => return Err(e),
    };
    Ok(GivePlan { spend, transfer })
}

// ---------------------------------------------------------------------------
// Submit
// ---------------------------------------------------------------------------

pub open spec fn witnessed_flag(s: SocialModel, claim: u64) -> bool {
    match claim_of(s, claim) {
        Some(c) => c.witnessed,
        None => false,
    }
}

pub open spec fn stamina_before_spec(c: CharacterModel, id: u64) -> Option<Stamina> {
    match stamina_of(c, id) {
        Some(p) => Some(stamina_from(p)),
        None => None,
    }
}

pub open spec fn band_before(x: Option<Stamina>) -> Option<StaminaBand> {
    match x {
        Some(s) => Some(band_of(s@ as int)),
        None => None,
    }
}

pub open spec fn tier_at(w: WorldModel, site: u64) -> Option<InfraTier> {
    match site_of(w.economy, site) {
        Some(s) => Some(s.tier),
        None => None,
    }
}

pub open spec fn kind_at_site(w: WorldModel, site: u64) -> Option<ResourceKind> {
    match site_of(w.economy, site) {
        Some(s) => Some(s.kind),
        None => None,
    }
}

/// The world and receipt after submitting a gather.
pub open spec fn submit_gather_spec(w: WorldModel, seq: u64, cmd: GatherCommand) -> (WorldModel, Receipt) {
    let before = world_hash_spec(w);
    let witnessed = witnessed_flag(w.social, cmd.claim.0);
    let sb = stamina_before_spec(w.characters, cmd.actor.0);
    match plan_gather_spec(w, cmd) {
        Err(reason) => (
            w,
            Receipt {
                seq,
                verb: Verb::Gather,
                actor: cmd.actor,
                claim: Some(cmd.claim),
                site: Some(cmd.site),
                recipient: None,
                outcome: OutcomeKind::Refused(reason),
                claim_witnessed: witnessed,
                transfer_witness: None,
                stamina_before: sb,
                band: band_before(sb),
                tier: tier_at(w, cmd.site.0),
                kind: kind_at_site(w, cmd.site.0),
                stamina_spent: 0,
                mass_moved: mass_from(0),
                grammar: grammar_fingerprint_spec(),
                world_hash_before: before,
                world_hash_after: before,
            },
        ),
        Ok(p) => {
            let w2 = apply_gather_spec(w, p);
            (
                w2,
                Receipt {
                    seq,
                    verb: Verb::Gather,
                    actor: cmd.actor,
                    claim: Some(ClaimId(p.claim)),
                    site: Some(cmd.site),
                    recipient: None,
                    outcome: match p.partial {
                        Some(r) => OutcomeKind::Partial(r),
                        None => OutcomeKind::Accepted,
                    },
                    claim_witnessed: witnessed,
                    transfer_witness: None,
                    stamina_before: sb,
                    band: Some(p.band),
                    tier: Some(p.tier),
                    kind: Some(p.kind),
                    stamina_spent: p.spend.cost,
                    mass_moved: mass_from(p.extraction.granted),
                    grammar: grammar_fingerprint_spec(),
                    world_hash_before: before,
                    world_hash_after: world_hash_spec(w2),
                },
            )
        },
    }
}

/// The world and receipt after submitting a witness attestation.
pub open spec fn submit_witness_spec(w: WorldModel, seq: u64, cmd: WitnessCommand) -> (WorldModel, Receipt) {
    let before = world_hash_spec(w);
    let witnessed = witnessed_flag(w.social, cmd.claim.0);
    let sb = stamina_before_spec(w.characters, cmd.witness.0);
    let site = match claim_of(w.social, cmd.claim.0) {
        Some(c) => Some(SiteId(c.site)),
        None => None,
    };
    match plan_witness_spec(w, cmd) {
        Err(reason) => (
            w,
            Receipt {
                seq,
                verb: Verb::Witness,
                actor: cmd.witness,
                claim: Some(cmd.claim),
                site,
                recipient: None,
                outcome: OutcomeKind::Refused(reason),
                claim_witnessed: witnessed,
                transfer_witness: None,
                stamina_before: sb,
                band: band_before(sb),
                tier: None,
                kind: None,
                stamina_spent: 0,
                mass_moved: mass_from(0),
                grammar: grammar_fingerprint_spec(),
                world_hash_before: before,
                world_hash_after: before,
            },
        ),
        Ok(p) => {
            let w2 = apply_witness_plan_spec(w, p);
            (
                w2,
                Receipt {
                    seq,
                    verb: Verb::Witness,
                    actor: cmd.witness,
                    claim: Some(ClaimId(p.grant.claim)),
                    site,
                    recipient: None,
                    outcome: OutcomeKind::Accepted,
                    claim_witnessed: witnessed,
                    transfer_witness: None,
                    stamina_before: sb,
                    band: band_before(sb),
                    tier: None,
                    kind: None,
                    stamina_spent: p.spend.cost,
                    mass_moved: mass_from(0),
                    grammar: grammar_fingerprint_spec(),
                    world_hash_before: before,
                    world_hash_after: world_hash_spec(w2),
                },
            )
        },
    }
}

/// The world and receipt after submitting a give. The receipt records who
/// acted, who received, which kind, how much, and which third party was
/// named as witness; `claim_witnessed` is always false for a transfer.
pub open spec fn submit_give_spec(w: WorldModel, seq: u64, cmd: GiveCommand) -> (WorldModel, Receipt) {
    let before = world_hash_spec(w);
    let sb = stamina_before_spec(w.characters, cmd.giver.0);
    match plan_give_spec(w, cmd) {
        Err(reason) => (
            w,
            Receipt {
                seq,
                verb: Verb::Give,
                actor: cmd.giver,
                claim: None,
                site: None,
                recipient: Some(cmd.recipient),
                outcome: OutcomeKind::Refused(reason),
                claim_witnessed: false,
                transfer_witness: cmd.witness,
                stamina_before: sb,
                band: band_before(sb),
                tier: None,
                kind: Some(cmd.kind),
                stamina_spent: 0,
                mass_moved: mass_from(0),
                grammar: grammar_fingerprint_spec(),
                world_hash_before: before,
                world_hash_after: before,
            },
        ),
        Ok(p) => {
            let w2 = apply_give_spec(w, p);
            (
                w2,
                Receipt {
                    seq,
                    verb: Verb::Give,
                    actor: cmd.giver,
                    claim: None,
                    site: None,
                    recipient: Some(cmd.recipient),
                    outcome: OutcomeKind::Accepted,
                    claim_witnessed: false,
                    transfer_witness: cmd.witness,
                    stamina_before: sb,
                    band: band_before(sb),
                    tier: None,
                    kind: Some(p.transfer.kind),
                    stamina_spent: p.spend.cost,
                    mass_moved: mass_from(p.transfer.grams),
                    grammar: grammar_fingerprint_spec(),
                    world_hash_before: before,
                    world_hash_after: world_hash_spec(w2),
                },
            )
        },
    }
}

/// The world and receipt after submitting one command.
pub open spec fn submit_spec(w: WorldModel, seq: u64, cmd: Command) -> (WorldModel, Receipt) {
    match cmd {
        Command::Gather(g) => submit_gather_spec(w, seq, g),
        Command::Witness(x) => submit_witness_spec(w, seq, x),
        Command::Give(g) => submit_give_spec(w, seq, g),
    }
}

/// Well-formed owners whose total mass fits `u64` (every world that passed
/// coherence validation, and every world a submit leaves behind).
pub open spec fn settled(w: WorldModel) -> bool {
    &&& world_wf(w)
    &&& total_mass_spec(w.economy) <= u64::MAX
}

/// What `submit` requires of a world: settled, with every owner counter
/// having room to advance.
pub open spec fn submittable(w: WorldModel) -> bool {
    &&& settled(w)
    &&& world_headroom(w)
}

/// Each owner counter of `after` lies between its value in `before` and
/// that value plus `n`.
pub open spec fn revisions_within(before: WorldModel, after: WorldModel, n: int) -> bool {
    &&& before.characters.revision <= after.characters.revision <= before.characters.revision + n
    &&& before.social.revision <= after.social.revision <= before.social.revision + n
    &&& before.economy.revision <= after.economy.revision <= before.economy.revision + n
}

pub(crate) proof fn lemma_gather_ready(w: WorldModel, cmd: GatherCommand)
    requires
        submittable(w),
        plan_gather_spec(w, cmd) is Ok,
    ensures
        gather_plan_ready(w, plan_gather_spec(w, cmd)->Ok_0),
        ({
            let p = plan_gather_spec(w, cmd)->Ok_0;
            let w2 = apply_gather_spec(w, p);
            &&& total_mass_spec(w2.economy) == total_mass_spec(w.economy)
            &&& forall|k: ResourceKind| #[trigger] total_of_kind(w2.economy, k) == total_of_kind(w.economy, k)
        }),
{
    let p = plan_gather_spec(w, cmd)->Ok_0;
    let e = p.extraction;
    let s = site_of(w.economy, e.site).unwrap();
    lemma_holding_bounded(w.economy, e.to, e.kind);
    lemma_site_bounded(w.economy, e.site);
    lemma_weights_nonneg(e.kind);
    let points = stamina_of(w.characters, cmd.actor.0).unwrap();
    let band = band_of(points as int);
    let requested = yield_cell(band_index(band), tier_index(s.tier));
    law_extraction_conserves_mass(w.economy, cmd.site.0, cmd.actor.0, requested);
}

pub(crate) proof fn lemma_give_ready(w: WorldModel, cmd: GiveCommand)
    requires
        submittable(w),
        plan_give_spec(w, cmd) is Ok,
    ensures
        give_plan_ready(w, plan_give_spec(w, cmd)->Ok_0),
        ({
            let p = plan_give_spec(w, cmd)->Ok_0;
            let w2 = apply_give_spec(w, p);
            &&& total_mass_spec(w2.economy) == total_mass_spec(w.economy)
            &&& forall|k: ResourceKind| #[trigger] total_of_kind(w2.economy, k) == total_of_kind(w.economy, k)
        }),
{
    let p = plan_give_spec(w, cmd)->Ok_0;
    let t = p.transfer;
    lemma_two_holdings_bounded(w.economy, t.from, t.to, t.kind);
    lemma_weights_nonneg(t.kind);
    lemma_sum_nonneg(w.economy.sites, crate::economy::stock_weight());
    law_transfer_conserves_mass(w.economy, cmd.giver.0, cmd.recipient.0, cmd.kind, cmd.grams@);
}

fn submit_gather(world: &mut World, seq: u64, cmd: GatherCommand) -> (r: Receipt)
    requires
        submittable(old(world)@),
    ensures
        settled(final(world)@),
        revisions_within(old(world)@, final(world)@, 1),
        (final(world)@, r) == submit_gather_spec(old(world)@, seq, cmd),
{
    let ghost w = world@;
    let world_hash_before = world.hash();
    let grammar = grammar_fingerprint();
    let witnessed = match world.social.is_witnessed(cmd.claim) {
        Some(x) => x,
        None => false,
    };
    let stamina_before = world.characters.stamina(cmd.actor);
    let band_seen = match stamina_before {
        Some(s) => Some(s.band()),
        None => None,
    };
    let zero = MassGrams::zero();
    proof {
        let sb = stamina_before_spec(w.characters, cmd.actor.0);
        match stamina_before {
            Some(s) => {
                crate::vocab::lemma_stamina_from(s@);
                lemma_stamina_eq(s, stamina_from(s@));
            },
            None => {},
        }
        assert(stamina_before == sb);
        crate::vocab::lemma_mass_from(0);
        lemma_mass_eq(zero, mass_from(0));
    }
    match plan_gather(world, &cmd) {
        Err(reason) => {
            let tier = world.economy.tier(cmd.site);
            let kind = world.economy.site_kind(cmd.site);
            Receipt {
                seq,
                verb: Verb::Gather,
                actor: cmd.actor,
                claim: Some(cmd.claim),
                site: Some(cmd.site),
                recipient: None,
                outcome: OutcomeKind::Refused(reason),
                claim_witnessed: witnessed,
                transfer_witness: None,
                stamina_before,
                band: band_seen,
                tier,
                kind,
                stamina_spent: 0,
                mass_moved: zero,
                grammar,
                world_hash_before,
                world_hash_after: world.hash(),
            }
        },
        Ok(plan) => {
            let outcome = match plan.partial {
                Some(r) => OutcomeKind::Partial(r),
                None => OutcomeKind::Accepted,
            };
            let stamina_spent = plan.spend.cost();
            let mass_moved = plan.extraction.granted();
            let claim = plan.witness.claim();
            let band = plan.band;
            let tier = plan.tier;
            let kind = plan.kind;
            proof {
                lemma_gather_ready(w, cmd);
                crate::vocab::lemma_mass_from(plan@.extraction.granted);
                lemma_mass_eq(mass_moved, mass_from(plan@.extraction.granted));
            }
            plan.apply(world);
            Receipt {
                seq,
                verb: Verb::Gather,
                actor: cmd.actor,
                claim: Some(claim),
                site: Some(cmd.site),
                recipient: None,
                outcome,
                claim_witnessed: witnessed,
                transfer_witness: None,
                stamina_before,
                band: Some(band),
                tier: Some(tier),
                kind: Some(kind),
                stamina_spent,
                mass_moved,
                grammar,
                world_hash_before,
                world_hash_after: world.hash(),
            }
        },
    }
}

fn submit_witness(world: &mut World, seq: u64, cmd: WitnessCommand) -> (r: Receipt)
    requires
        submittable(old(world)@),
    ensures
        settled(final(world)@),
        revisions_within(old(world)@, final(world)@, 1),
        (final(world)@, r) == submit_witness_spec(old(world)@, seq, cmd),
{
    let ghost w = world@;
    let world_hash_before = world.hash();
    let grammar = grammar_fingerprint();
    let witnessed = match world.social.is_witnessed(cmd.claim) {
        Some(x) => x,
        None => false,
    };
    let stamina_before = world.characters.stamina(cmd.witness);
    let band_seen = match stamina_before {
        Some(s) => Some(s.band()),
        None => None,
    };
    let site = world.social.claim_site(cmd.claim);
    let zero = MassGrams::zero();
    proof {
        let sb = stamina_before_spec(w.characters, cmd.witness.0);
        match stamina_before {
            Some(s) => {
                crate::vocab::lemma_stamina_from(s@);
                lemma_stamina_eq(s, stamina_from(s@));
            },
            None => {},
        }
        assert(stamina_before == sb);
        crate::vocab::lemma_mass_from(0);
        lemma_mass_eq(zero, mass_from(0));
    }
    match plan_witness(world, &cmd) {
        Err(reason) => Receipt {
            seq,
            verb: Verb::Witness,
            actor: cmd.witness,
            claim: Some(cmd.claim),
            site,
            recipient: None,
            outcome: OutcomeKind::Refused(reason),
            claim_witnessed: witnessed,
            transfer_witness: None,
            stamina_before,
            band: band_seen,
            tier: None,
            kind: None,
            stamina_spent: 0,
            mass_moved: zero,
            grammar,
            world_hash_before,
            world_hash_after: world.hash(),
        },
        Ok(plan) => {
            let stamina_spent = plan.spend.cost();
            let claim = plan.grant.claim();
            plan.apply(world);
            Receipt {
                seq,
                verb: Verb::Witness,
                actor: cmd.witness,
                claim: Some(claim),
                site,
                recipient: None,
                outcome: OutcomeKind::Accepted,
                claim_witnessed: witnessed,
                transfer_witness: None,
                stamina_before,
                band: band_seen,
                tier: None,
                kind: None,
                stamina_spent,
                mass_moved: zero,
                grammar,
                world_hash_before,
                world_hash_after: world.hash(),
            }
        },
    }
}

fn submit_give(world: &mut World, seq: u64, cmd: GiveCommand) -> (r: Receipt)
    requires
        submittable(old(world)@),
    ensures
        settled(final(world)@),
        revisions_within(old(world)@, final(world)@, 1),
        (final(world)@, r) == submit_give_spec(old(world)@, seq, cmd),
{
    let ghost w = world@;
    let world_hash_before = world.hash();
    let grammar = grammar_fingerprint();
    let stamina_before = world.characters.stamina(cmd.giver);
    let band_seen = match stamina_before {
        Some(s) => Some(s.band()),
        None => None,
    };
    let zero = MassGrams::zero();
    proof {
        let sb = stamina_before_spec(w.characters, cmd.giver.0);
        match stamina_before {
            Some(s) => {
                crate::vocab::lemma_stamina_from(s@);
                lemma_stamina_eq(s, stamina_from(s@));
            },
            None => {},
        }
        assert(stamina_before == sb);
        crate::vocab::lemma_mass_from(0);
        lemma_mass_eq(zero, mass_from(0));
    }
    match plan_give(world, &cmd) {
        Err(reason) => Receipt {
            seq,
            verb: Verb::Give,
            actor: cmd.giver,
            claim: None,
            site: None,
            recipient: Some(cmd.recipient),
            outcome: OutcomeKind::Refused(reason),
            claim_witnessed: false,
            transfer_witness: cmd.witness,
            stamina_before,
            band: band_seen,
            tier: None,
            kind: Some(cmd.kind),
            stamina_spent: 0,
            mass_moved: zero,
            grammar,
            world_hash_before,
            world_hash_after: world.hash(),
        },
        Ok(plan) => {
            let stamina_spent = plan.spend.cost();
            let mass_moved = plan.transfer.grams();
            let kind = plan.transfer.kind();
            proof {
                lemma_give_ready(w, cmd);
                crate::vocab::lemma_mass_from(plan@.transfer.grams);
                lemma_mass_eq(mass_moved, mass_from(plan@.transfer.grams));
            }
            plan.apply(world);
            Receipt {
                seq,
                verb: Verb::Give,
                actor: cmd.giver,
                claim: None,
                site: None,
                recipient: Some(cmd.recipient),
                outcome: OutcomeKind::Accepted,
                claim_witnessed: false,
                transfer_witness: cmd.witness,
                stamina_before,
                band: band_seen,
                tier: None,
                kind: Some(kind),
                stamina_spent,
                mass_moved,
                grammar,
                world_hash_before,
                world_hash_after: world.hash(),
            }
        },
    }
}

/// Submit one command through the boundary. All validation happens before
/// any owner apply; the result and the new world are exactly those of
/// `submit_spec`, the world stays settled, and each owner counter advances
/// by at most one.
pub fn submit(world: &mut World, seq: u64, cmd: Command) -> (r: Receipt)
    requires
        submittable(old(world)@),
    ensures
        settled(final(world)@),
        revisions_within(old(world)@, final(world)@, 1),
        (final(world)@, r) == submit_spec(old(world)@, seq, cmd),
{
    match cmd {
        Command::Gather(gather) => submit_gather(world, seq, gather),
        Command::Witness(witness) => submit_witness(world, seq, witness),
        Command::Give(give) => submit_give(world, seq, give),
    }
}

/// The world and receipt log after submitting `cmds` in order, the i-th
/// command (from zero) under sequence number i + 1.
pub open spec fn run_spec(w: WorldModel, cmds: Seq<Command>) -> (WorldModel, Seq<Receipt>)
    decreases cmds.len(),
{
    if cmds.len() == 0 {
        (w, Seq::empty())
    } else {
        let prev = run_spec(w, cmds.drop_last());
        let step = submit_spec(prev.0, cmds.len() as u64, cmds.last());
        (step.0, prev.1.push(step.1))
    }
}

/// Room for `n` more submits: every owner counter can advance `n` times
/// and every sequence number up to `n` fits.
pub open spec fn room_for(w: WorldModel, n: int) -> bool {
    &&& w.characters.revision + n <= u64::MAX
    &&& w.social.revision + n <= u64::MAX
    &&& w.economy.revision + n <= 0x7fff_ffff_ffff_ffffu64
    &&& n < u64::MAX
}

/// Submits every command in order, the i-th (from zero) under sequence
/// number i + 1, and returns the receipts in order.
pub fn run_commands(world: &mut World, cmds: &[Command]) -> (r: Vec<Receipt>)
    requires
        settled(old(world)@),
        room_for(old(world)@, cmds@.len() as int),
    ensures
        settled(final(world)@),
        (final(world)@, r@) == run_spec(old(world)@, cmds@),
{
    let ghost w0 = world@;
    let mut log: Vec<Receipt> = Vec::new();
    let mut i: usize = 0;
    while i < cmds.len()
        invariant
            i <= cmds@.len(),
            room_for(w0, cmds@.len() as int),
            settled(world@),
            revisions_within(w0, world@, i as int),
            (world@, log@) == run_spec(w0, cmds@.take(i as int)),
        decreases cmds@.len() - i,
    {
        proof {
            let t = cmds@.take(i as int + 1);
            assert(t.drop_last() =~= cmds@.take(i as int));
            assert(t.last() == cmds@[i as int]);
        }
        let receipt = submit(world, i as u64 + 1, cmds[i]);
        log.push(receipt);
        i = i + 1;
    }
    proof {
        assert(cmds@.take(cmds@.len() as int) =~= cmds@);
    }
    log
}

// ---------------------------------------------------------------------------
// Proof envelope
// ---------------------------------------------------------------------------

pub open spec fn commands_bytes(cmds: Seq<Command>) -> Seq<u8>
    decreases cmds.len(),
{
    if cmds.len() == 0 {
        Seq::empty()
    } else {
        commands_bytes(cmds.drop_last()) + command_bytes(cmds.last())
    }
}

/// Identity of a trial's immutable inputs: the seeded world hash plus the
/// canonical encoding of every command in order.
pub fn fixture_identity(fixture_hash: u64, cmds: &[Command]) -> (r: u64)
    ensures
        r == fnv_hash(be8(fixture_hash) + commands_bytes(cmds@)),
{
    let mut bytes: Vec<u8> = Vec::new();
    push_be8(&mut bytes, fixture_hash);
    let ghost start = bytes@;
    let mut i: usize = 0;
    while i < cmds.len()
        invariant
            i <= cmds@.len(),
            start == be8(fixture_hash),
            bytes@ == start + commands_bytes(cmds@.take(i as int)),
        decreases cmds@.len() - i,
    {
        let encoded = cmds[i].canonical_bytes();
        push_bytes(&mut bytes, encoded.as_slice());
        proof {
            let t = cmds@.take(i as int + 1);
            assert(t.drop_last() =~= cmds@.take(i as int));
            assert(bytes@ =~= start + commands_bytes(t));
        }
        i = i + 1;
    }
    proof {
        assert(cmds@.take(cmds@.len() as int) =~= cmds@);
    }
    hash_bytes(&bytes)
}

pub open spec fn receipts_bytes(log: Seq<Receipt>) -> Seq<u8>
    decreases log.len(),
{
    if log.len() == 0 {
        Seq::empty()
    } else {
        receipts_bytes(log.drop_last()) + ascii_bytes(receipt_line(log.last()))
    }
}

/// The canonical lines of a receipt log, in order.
pub open spec fn receipt_lines(log: Seq<Receipt>) -> Seq<Seq<char>> {
    log.map_values(|r: Receipt| receipt_line(r))
}

/// The bytes a chain digest reads depend on the canonical lines alone.
proof fn lemma_receipts_bytes_by_lines(l1: Seq<Receipt>, l2: Seq<Receipt>)
    requires
        receipt_lines(l1) == receipt_lines(l2),
    ensures
        receipts_bytes(l1) == receipts_bytes(l2),
    decreases l1.len(),
{
    assert(l1.len() == receipt_lines(l1).len());
    if l1.len() > 0 {
        assert(receipt_lines(l1.drop_last()) =~= receipt_lines(l1).drop_last());
        assert(receipt_lines(l2.drop_last()) =~= receipt_lines(l2).drop_last());
        assert(receipt_line(l1.last()) == receipt_lines(l1)[l1.len() - 1]);
        assert(receipt_line(l2.last()) == receipt_lines(l2)[l2.len() - 1]);
        lemma_receipts_bytes_by_lines(l1.drop_last(), l2.drop_last());
    }
}

/// Two logs whose canonical lines agree, one by one and in order, have the
/// same chain digest: the digest reads nothing but the lines.
pub proof fn law_chain_digest_reads_only_lines(l1: Seq<Receipt>, l2: Seq<Receipt>)
    requires
        l1.len() == l2.len(),
        forall|i: int| 0 <= i < l1.len() ==> receipt_line(#[trigger] l1[i]) == receipt_line(l2[i]),
    ensures
        fnv_hash(receipts_bytes(l1)) == fnv_hash(receipts_bytes(l2)),
{
    assert(receipt_lines(l1) =~= receipt_lines(l2));
    lemma_receipts_bytes_by_lines(l1, l2);
}

/// The digest of an empty chain is the FNV-1a offset basis.
pub proof fn law_empty_chain_digest()
    ensures
        fnv_hash(receipts_bytes(Seq::<Receipt>::empty())) == FNV_OFFSET,
{
}

/// Appending a receipt continues the digest over that receipt's line:
/// the digest is FNV-1a over the lines in order.
pub proof fn law_chain_digest_extends(log: Seq<Receipt>, r: Receipt)
    ensures
        fnv_hash(receipts_bytes(log.push(r))) == fnv_fold(
            fnv_hash(receipts_bytes(log)),
            ascii_bytes(receipt_line(r)),
        ),
{
    assert(log.push(r).drop_last() =~= log);
    lemma_fnv_fold_concat(FNV_OFFSET, receipts_bytes(log), ascii_bytes(receipt_line(r)));
}

/// Digest of the whole receipt chain, in order: FNV-1a over every
/// canonical line.
pub fn receipt_chain_digest(log: &[Receipt]) -> (r: u64)
    ensures
        r == fnv_hash(receipts_bytes(log@)),
{
    let mut bytes: Vec<u8> = Vec::new();
    let mut i: usize = 0;
    while i < log.len()
        invariant
            i <= log@.len(),
            bytes@ == receipts_bytes(log@.take(i as int)),
        decreases log@.len() - i,
    {
        let line = log[i].canonical_line();
        push_ascii(&mut bytes, line.as_str());
        proof {
            let t = log@.take(i as int + 1);
            assert(t.drop_last() =~= log@.take(i as int));
            assert(bytes@ =~= receipts_bytes(t));
        }
        i = i + 1;
    }
    proof {
        assert(log@.take(log@.len() as int) =~= log@);
    }
    hash_bytes(&bytes)
}

} // verus!
