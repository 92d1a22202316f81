//! Laws of the boundary: what every submit keeps, what a refusal leaves
//! behind, and where mass may and may not move.

use vstd::prelude::*;

use crate::boundary::{
    apply_give_spec, lemma_gather_ready, lemma_give_ready, plan_gather_spec, plan_give_spec,
    plan_witness_spec, submit_spec, submittable, witnessed_flag, Command, GatherCommand, GiveCommand,
    WitnessCommand,
};
use crate::character::{lemma_apply_spend_effect, stamina_of};
use crate::vocab::lemma_stamina_from;
use crate::economy::{
    holding_of, lemma_apply_extract_effect, lemma_apply_transfer_effect, lemma_set_holding, set_holding_spec,
    site_of, total_mass_spec, total_of_kind,
};
use crate::social::{claim_of, lemma_apply_witness_effect};
use crate::grammar::{gather_cost, yield_cell, GIVE_COST};
use crate::vocab::{
    band_index, band_of, lemma_mass_from, tier_index, CharacterId, ClaimId, InfraTier, MassGrams,
    OutcomeKind, RefusalReason, ResourceKind, SiteId, Stamina, StaminaBand,
};
use crate::canon::{
    holdings_belong_to_characters, lemma_extract_keeps_owned, lemma_owned_transfers, lemma_transfer_keeps_owned,
    owned_by, same_ids,
};
use crate::world::{seeded_world, world_hash_spec, WorldModel};

verus! {

/// A refused command leaves the world exactly as it found it, and its
/// receipt records the same world hash before and after.
pub proof fn law_refusal_mutates_nothing(w: WorldModel, seq: u64, cmd: Command)
    requires
        submit_spec(w, seq, cmd).1.outcome is Refused,
    ensures
        submit_spec(w, seq, cmd).0 == w,
        submit_spec(w, seq, cmd).1.world_hash_after == submit_spec(w, seq, cmd).1.world_hash_before,
{
}

/// Every receipt brackets its command with the hash of the world before it
/// and the hash of the world after it.
pub proof fn law_receipt_hashes_bracket_the_command(w: WorldModel, seq: u64, cmd: Command)
    ensures
        submit_spec(w, seq, cmd).1.world_hash_before == world_hash_spec(w),
        submit_spec(w, seq, cmd).1.world_hash_after == world_hash_spec(submit_spec(w, seq, cmd).0),
        submit_spec(w, seq, cmd).1.seq == seq,
{
}

/// No command creates or destroys mass: every kind's total across sites
/// and holdings, and the total of all kinds, are the same after a submit
/// as before it.
pub proof fn law_submit_conserves_every_kind(w: WorldModel, seq: u64, cmd: Command, kind: ResourceKind)
    requires
        submittable(w),
    ensures
        total_of_kind(submit_spec(w, seq, cmd).0.economy, kind) == total_of_kind(w.economy, kind),
        total_mass_spec(submit_spec(w, seq, cmd).0.economy) == total_mass_spec(w.economy),
{
    match cmd {
        Command::Gather(g) => {
            if plan_gather_spec(w, g) is Ok {
                lemma_gather_ready(w, g);
            }
        },
        Command::Witness(_) => {},
        Command::Give(g) => {
            if plan_give_spec(w, g) is Ok {
                lemma_give_ready(w, g);
            }
        },
    }
}

/// A claim that was not witnessed before a gather never lets that gather
/// through: every gather that is not refused went through a witnessed
/// claim, and its receipt says so.
pub proof fn law_gather_moves_mass_only_through_a_witnessed_claim(w: WorldModel, seq: u64, g: GatherCommand)
    requires
        !(submit_spec(w, seq, Command::Gather(g)).1.outcome is Refused),
    ensures
        witnessed_flag(w.social, g.claim.0),
        submit_spec(w, seq, Command::Gather(g)).1.claim_witnessed,
{
}

/// An exhausted actor never gathers: the command is refused and moves no
/// mass.
pub proof fn law_exhausted_actor_never_gathers(w: WorldModel, seq: u64, g: GatherCommand)
    requires
        stamina_of(w.characters, g.actor.0) matches Some(p) && band_of(p as int) == StaminaBand::Exhausted,
    ensures
        submit_spec(w, seq, Command::Gather(g)).1.outcome is Refused,
        submit_spec(w, seq, Command::Gather(g)).1.mass_moved@ == 0,
        submit_spec(w, seq, Command::Gather(g)).1.stamina_spent == 0,
{
    lemma_mass_from(0);
}

/// A gather that goes through moves exactly the active cell's yield for
/// the actor's band and the site's tier when it is accepted, and strictly
/// less (but something) when the site runs short; the actor pays exactly
/// the band's cost.
pub proof fn law_gather_yield_is_the_active_cell(w: WorldModel, seq: u64, g: GatherCommand)
    requires
        !(submit_spec(w, seq, Command::Gather(g)).1.outcome is Refused),
    ensures
        ({
            let r = submit_spec(w, seq, Command::Gather(g)).1;
            &&& r.band matches Some(b) && r.tier matches Some(t) && {
                let cell = yield_cell(band_index(b), tier_index(t));
                &&& r.stamina_spent == gather_cost(band_index(b))
                &&& b != StaminaBand::Exhausted
                &&& r.outcome is Accepted ==> r.mass_moved@ == cell
                &&& r.outcome is Partial ==> 0 < r.mass_moved@ < cell
            }
        }),
{
    let p = plan_gather_spec(w, g)->Ok_0;
    lemma_mass_from(p.extraction.granted);
}

/// A refused command spends no stamina and moves no mass.
pub proof fn law_refusal_costs_nothing(w: WorldModel, seq: u64, cmd: Command)
    requires
        submit_spec(w, seq, cmd).1.outcome is Refused,
    ensures
        submit_spec(w, seq, cmd).1.stamina_spent == 0,
        submit_spec(w, seq, cmd).1.mass_moved@ == 0,
{
    lemma_mass_from(0);
}

/// Every command that goes through changes the world: the acting
/// character always pays, so the character owner's counter advances by
/// exactly one.
pub proof fn law_accepted_command_is_visible(w: WorldModel, seq: u64, cmd: Command)
    requires
        submittable(w),
        !(submit_spec(w, seq, cmd).1.outcome is Refused),
    ensures
        submit_spec(w, seq, cmd).0.characters.revision == w.characters.revision + 1,
        submit_spec(w, seq, cmd).0 != w,
{
}

/// A transfer acts through no claim: its receipt never names one and never
/// reports a claim witnessed, whatever third party it names.
pub proof fn law_transfer_never_reports_a_claim(w: WorldModel, seq: u64, g: GiveCommand)
    ensures
        submit_spec(w, seq, Command::Give(g)).1.claim is None,
        !submit_spec(w, seq, Command::Give(g)).1.claim_witnessed,
        submit_spec(w, seq, Command::Give(g)).1.transfer_witness == g.witness,
{
}

/// Naming a witness on a give is receipted but never stateful: two gives
/// that differ only in the witness they name, and that both go through,
/// leave the same world behind.
pub proof fn law_give_witness_is_never_stateful(w: WorldModel, seq: u64, a: GiveCommand, b: GiveCommand)
    requires
        a.giver == b.giver,
        a.recipient == b.recipient,
        a.kind == b.kind,
        a.grams == b.grams,
        !(submit_spec(w, seq, Command::Give(a)).1.outcome is Refused),
        !(submit_spec(w, seq, Command::Give(b)).1.outcome is Refused),
    ensures
        submit_spec(w, seq, Command::Give(a)).0 == submit_spec(w, seq, Command::Give(b)).0,
{
}

/// A give touches only its two parties, and only in the named kind: every
/// other character's stamina, every other holding, every site and all
/// social state read the same afterwards. A named witness pays neither
/// stamina nor mass. When the give goes through, the giver pays exactly the
/// give cost and exactly the named mass moves from giver to recipient.
pub proof fn law_give_touches_only_its_parties(w: WorldModel, seq: u64, g: GiveCommand)
    requires
        submittable(w),
    ensures
        ({
            let after = submit_spec(w, seq, Command::Give(g)).0;
            &&& forall|id: u64| id != g.giver.0 ==> #[trigger] stamina_of(after.characters, id)
                == stamina_of(w.characters, id)
            &&& forall|id: u64, k: ResourceKind|
                (id != g.giver.0 && id != g.recipient.0) || k != g.kind ==> #[trigger] holding_of(
                    after.economy,
                    id,
                    k,
                ) == holding_of(w.economy, id, k)
            &&& after.economy.sites == w.economy.sites
            &&& after.social == w.social
            &&& !(submit_spec(w, seq, Command::Give(g)).1.outcome is Refused) ==> {
                &&& stamina_of(after.characters, g.giver.0) == Some(
                    (stamina_of(w.characters, g.giver.0).unwrap() - GIVE_COST) as u8,
                )
                &&& holding_of(after.economy, g.giver.0, g.kind) == holding_of(w.economy, g.giver.0, g.kind)
                    - g.grams@
                &&& holding_of(after.economy, g.recipient.0, g.kind) == holding_of(
                    w.economy,
                    g.recipient.0,
                    g.kind,
                ) + g.grams@
            }
        }),
{
    if plan_give_spec(w, g) is Ok {
        let p = plan_give_spec(w, g)->Ok_0;
        let t = p.transfer;
        lemma_give_ready(w, g);
        lemma_apply_spend_effect(w.characters, p.spend);
        let next_from = (holding_of(w.economy, t.from, t.kind) - t.grams) as u64;
        let next_to = (holding_of(w.economy, t.to, t.kind) + t.grams) as u64;
        lemma_set_holding(w.economy, t.from, t.kind, next_from);
        let m1 = set_holding_spec(w.economy, t.from, t.kind, next_from);
        lemma_set_holding(m1, t.to, t.kind, next_to);
    }
}

/// Witnessing flips a claim's gate exactly once: after an accepted witness
/// the claim is witnessed, and any later witness of the same claim is
/// refused — as already witnessed, unless the later witness is the claim's
/// own holder.
pub proof fn law_witness_flips_the_gate_once(
    w: WorldModel,
    seq: u64,
    x: WitnessCommand,
    later_seq: u64,
    y: WitnessCommand,
)
    requires
        submittable(w),
        submit_spec(w, seq, Command::Witness(x)).1.outcome is Accepted,
        y.claim == x.claim,
    ensures
        ({
            let after = submit_spec(w, seq, Command::Witness(x)).0;
            let again = submit_spec(after, later_seq, Command::Witness(y)).1;
            &&& witnessed_flag(after.social, x.claim.0)
            &&& !witnessed_flag(w.social, x.claim.0)
            &&& again.outcome is Refused
            &&& y.witness.0 != claim_of(w.social, x.claim.0).unwrap().holder ==> again.outcome
                == OutcomeKind::Refused(RefusalReason::ClaimAlreadyWitnessed)
        }),
{
    let p = plan_witness_spec(w, x)->Ok_0;
    lemma_apply_witness_effect(w.social, p.grant);
}

/// A submit never adds or removes a character, a site or a claim, and a
/// claim once witnessed stays witnessed.
pub proof fn law_submit_keeps_ids_and_witnessing(w: WorldModel, seq: u64, cmd: Command)
    requires
        submittable(w),
    ensures
        ({
            let after = submit_spec(w, seq, cmd).0;
            &&& forall|id: u64| #[trigger] stamina_of(after.characters, id) is Some <==> stamina_of(
                w.characters,
                id,
            ) is Some
            &&& forall|id: u64| #[trigger] site_of(after.economy, id) is Some <==> site_of(w.economy, id) is Some
            &&& forall|id: u64| #[trigger] claim_of(after.social, id) is Some <==> claim_of(w.social, id) is Some
            &&& forall|id: u64| witnessed_flag(w.social, id) ==> #[trigger] witnessed_flag(after.social, id)
        }),
{
    match cmd {
        Command::Gather(g) => {
            if plan_gather_spec(w, g) is Ok {
                let p = plan_gather_spec(w, g)->Ok_0;
                lemma_gather_ready(w, g);
                lemma_apply_spend_effect(w.characters, p.spend);
                lemma_apply_extract_effect(w.economy, p.extraction);
            }
        },
        Command::Witness(x) => {
            if plan_witness_spec(w, x) is Ok {
                let p = plan_witness_spec(w, x)->Ok_0;
                lemma_apply_spend_effect(w.characters, p.spend);
                lemma_apply_witness_effect(w.social, p.grant);
            }
        },
        Command::Give(g) => {
            if plan_give_spec(w, g) is Ok {
                let p = plan_give_spec(w, g)->Ok_0;
                lemma_give_ready(w, g);
                lemma_apply_spend_effect(w.characters, p.spend);
                lemma_apply_transfer_effect(w.economy, p.transfer);
            }
        },
    }
}

/// A submit keeps every stored holding with a character of the world:
/// mass only ever lands in the holding of a character that exists.
pub proof fn law_submit_keeps_holdings_with_characters(w: WorldModel, seq: u64, cmd: Command)
    requires
        submittable(w),
        holdings_belong_to_characters(w),
    ensures
        holdings_belong_to_characters(submit_spec(w, seq, cmd).0),
{
    let after = submit_spec(w, seq, cmd).0;
    law_submit_keeps_ids_and_witnessing(w, seq, cmd);
    assert(owned_by(w.economy.holdings, w.characters));
    assert(same_ids(w.characters, after.characters));
    match cmd {
        Command::Gather(g) => {
            if plan_gather_spec(w, g) is Ok {
                let p = plan_gather_spec(w, g)->Ok_0;
                lemma_gather_ready(w, g);
                lemma_extract_keeps_owned(w.economy, w.characters, p.extraction);
            }
        },
        Command::Witness(_) => {},
        Command::Give(g) => {
            if plan_give_spec(w, g) is Ok {
                let p = plan_give_spec(w, g)->Ok_0;
                lemma_give_ready(w, g);
                lemma_transfer_keeps_owned(w.economy, w.characters, p.transfer);
            }
        },
    }
    lemma_owned_transfers(after.economy.holdings, w.characters, after.characters);
}

/// A freshly seeded world stores no holding, so every stored holding
/// belongs to a character.
pub proof fn law_seeded_world_holdings_belong(
    characters: Seq<(CharacterId, Stamina)>,
    sites: Seq<(SiteId, InfraTier, ResourceKind, MassGrams)>,
    claims: Seq<(ClaimId, CharacterId, SiteId, bool)>,
)
    ensures
        holdings_belong_to_characters(seeded_world(characters, sites, claims)),
{
}

/// Every receipt reports the stamina and band of its actor — the gatherer,
/// the witness, or the giver — as they stood in the world before the
/// command; a receipt for an unknown actor reports neither.
pub proof fn law_receipt_reports_the_actors_stamina(w: WorldModel, seq: u64, cmd: Command)
    ensures
        ({
            let r = submit_spec(w, seq, cmd).1;
            &&& r.actor == match cmd {
                Command::Gather(g) => g.actor,
                Command::Witness(x) => x.witness,
                Command::Give(g) => g.giver,
            }
            &&& (match r.stamina_before {
                Some(s) => Some(s@),
                None => None,
            }) == stamina_of(w.characters, r.actor.0)
            &&& r.band == match stamina_of(w.characters, r.actor.0) {
                Some(p) => Some(band_of(p as int)),
                None => None,
            }
        }),
{
    let r = submit_spec(w, seq, cmd).1;
    if let Some(p) = stamina_of(w.characters, r.actor.0) {
        lemma_stamina_from(p);
    }
}

} // verus!
