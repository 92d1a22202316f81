//! Agreement of the shadow with the boundary: stepping the shadow from the
//! tables of a world gives exactly the tables of the world the boundary
//! leaves behind, and an expectation the boundary's receipt meets. So a
//! genuine run passes oracles 9 and 10.

use vstd::prelude::*;

use crate::audit::{
    hash_unmoved, law_run_chain_holds, law_run_conserves_every_kind, law_run_receipts_pass_the_audits,
    lemma_run_settles,
};
use crate::boundary::{
    lemma_gather_ready, lemma_give_ready, plan_gather_spec, plan_give_spec, plan_witness_spec, room_for,
    run_spec, settled, submit_spec, submittable, Command, GatherCommand, GiveCommand, WitnessCommand,
};
use crate::character::{apply_spend_spec, character_wf, stamina_of, CharacterModel, SpendFacts, StaminaRecord};
use crate::economy::{
    apply_extract_spec, apply_transfer_spec, economy_wf, holding_key, holding_of, lemma_kinds_sum_to_total,
    lemma_set_holding, set_holding_spec, site_of, total_of_kind, EconomyModel, ExtractFacts, HoldingRecord,
    SiteRecord, TransferFacts,
};
use crate::keyed::{
    key_index, lemma_lookup_ext, lemma_lookup_map, lemma_map_sorted, lemma_replace_at_key,
    lemma_sorted_unique, lemma_update_same_key, lookup, replace_at_key, sorted_by_key, Keyed,
};
use crate::oracles::{
    authority_pass, chain_violations, compared, count_where, ctx_ready, exhausted_extraction,
    mass_conserved_pass, mismatches, outside_cell, replay_hashes_match, replay_lines_match,
    replay_states_match, shadow_violations, OracleCtx,
};
use crate::receipt::Receipt;
use crate::shadow::{
    add_holding_spec, claim_at, claim_row, divergences, held_in, holding_row, holding_slot,
    matches_spec, set_stamina, shadow_gather_spec, shadow_give_spec, shadow_of_world, shadow_run_spec,
    shadow_step_spec, shadow_witness_spec, site_at, site_row, stamina_at, stamina_row, Expectation,
    ShadowClaim, ShadowHolding, ShadowSite,
};
use crate::social::{apply_witness_spec, claim_of, social_wf, ClaimRecord, GrantFacts, SocialModel};
use crate::vocab::{kind_index, lemma_mass_from, ResourceKind};
use crate::world::{world_hash_spec, world_wf, WorldModel};

verus! {

/// The image of a table with one record replaced is the image with the
/// record's image replaced.
proof fn lemma_map_replace<T: Keyed, U: Keyed>(s: Seq<T>, f: spec_fn(T) -> U, k: int, x: Option<T>)
    requires
        sorted_by_key(s),
        forall|y: T| #[trigger] f(y).key() == y.key(),
        x matches Some(r) ==> r.key() == k,
    ensures
        replace_at_key(s, k, x).map_values(f) == replace_at_key(
            s.map_values(f),
            k,
            match x {
                Some(r) => Some(f(r)),
                None => None,
            },
        ),
{
    let fx = match x {
        Some(r) => Some(f(r)),
        None => None,
    };
    let a = replace_at_key(s, k, x);
    let t = s.map_values(f);
    let b = replace_at_key(t, k, fx);
    lemma_replace_at_key(s, k, x);
    lemma_map_sorted(s, f);
    lemma_replace_at_key(t, k, fx);
    lemma_map_sorted(a, f);
    lemma_sorted_unique(s);
    lemma_sorted_unique(a);
    assert forall|q: int| #[trigger] lookup(a.map_values(f), q) == lookup(b, q) by {
        lemma_lookup_map(a, f, q);
        lemma_lookup_map(s, f, q);
    }
    lemma_lookup_ext(a.map_values(f), b);
}

/// Replacing the record stored under its own key, in a table in key
/// order, is updating it in place.
proof fn lemma_replace_is_update<T: Keyed>(s: Seq<T>, i: int, x: T)
    requires
        sorted_by_key(s),
        0 <= i < s.len(),
        x.key() == s[i].key(),
    ensures
        replace_at_key(s, x.key(), Some(x)) == s.update(i, x),
{
    lemma_update_same_key(s, i, x);
    lemma_replace_at_key(s, x.key(), Some(x));
    lemma_lookup_ext(replace_at_key(s, x.key(), Some(x)), s.update(i, x));
}

/// What the shadow reads of a world under each key is the image of what
/// the owners store there.
proof fn lemma_shadow_lookups(w: WorldModel)
    requires
        world_wf(w),
    ensures
        forall|id: u64| #[trigger] stamina_at(shadow_of_world(w), id) == stamina_of(w.characters, id),
        forall|id: u64| #[trigger] claim_at(shadow_of_world(w), id) == match claim_of(w.social, id) {
            Some(c) => Some(claim_row(c)),
            None => None,
        },
        forall|id: u64| #[trigger] site_at(shadow_of_world(w), id) == match site_of(w.economy, id) {
            Some(x) => Some(site_row(x)),
            None => None,
        },
        forall|id: u64, k: ResourceKind| #[trigger] held_in(shadow_of_world(w).holdings, id, kind_index(k) as usize)
            == holding_of(w.economy, id, k),
{
    lemma_sorted_unique(w.characters.records);
    lemma_sorted_unique(w.social.records);
    lemma_sorted_unique(w.economy.sites);
    lemma_sorted_unique(w.economy.holdings);
    assert forall|id: u64| #[trigger] stamina_at(shadow_of_world(w), id) == stamina_of(w.characters, id) by {
        lemma_lookup_map(w.characters.records, |r: StaminaRecord| stamina_row(r), id as int);
    }
    assert forall|id: u64| #[trigger] claim_at(shadow_of_world(w), id) == match claim_of(w.social, id) {
        Some(c) => Some(claim_row(c)),
        None => None,
    } by {
        lemma_lookup_map(w.social.records, |c: ClaimRecord| claim_row(c), id as int);
    }
    assert forall|id: u64| #[trigger] site_at(shadow_of_world(w), id) == match site_of(w.economy, id) {
        Some(x) => Some(site_row(x)),
        None => None,
    } by {
        lemma_lookup_map(w.economy.sites, |x: SiteRecord| site_row(x), id as int);
    }
    assert forall|id: u64, k: ResourceKind| #[trigger] held_in(shadow_of_world(w).holdings, id, kind_index(k) as usize)
        == holding_of(w.economy, id, k) by {
        lemma_lookup_map(w.economy.holdings, |h: HoldingRecord| holding_row(h), holding_key(id, k));
    }
}

/// The shadow's stamina table after a spend is the image of the owner's.
proof fn lemma_stamina_after_spend(m: CharacterModel, s: SpendFacts)
    requires
        character_wf(m),
        stamina_of(m, s.id) matches Some(p) && s.cost <= p,
    ensures
        apply_spend_spec(m, s).records.map_values(|r: StaminaRecord| stamina_row(r)) == set_stamina(
            m.records.map_values(|r: StaminaRecord| stamina_row(r)),
            s.id,
            (stamina_of(m, s.id).unwrap() - s.cost) as u8,
        ),
{
    lemma_sorted_unique(m.records);
    let i = key_index(m.records, s.id as int);
    let rec = m.records[i];
    let new_rec = StaminaRecord {
        id: s.id,
        points: (rec.points - s.cost) as u8,
        revision: (rec.revision + 1) as u64,
    };
    let target = apply_spend_spec(m, s);
    assert forall|j: int| 0 <= j < m.records.len() implies target.records[j] == m.records.update(
        i,
        new_rec,
    )[j] by {
        if j != i {
            assert(m.records[j].key() != m.records[i].key());
        }
    }
    assert(target.records =~= m.records.update(i, new_rec));
    let f = |r: StaminaRecord| stamina_row(r);
    let t = m.records.map_values(f);
    lemma_map_sorted(m.records, f);
    let row = stamina_row(new_rec);
    assert(target.records.map_values(f) =~= t.update(i, row));
    lemma_replace_is_update(t, i, row);
}

/// The shadow's claim table after witnessing is the image of the owner's.
proof fn lemma_claims_after_witness(m: SocialModel, g: GrantFacts)
    requires
        social_wf(m),
        claim_of(m, g.claim) is Some,
    ensures
        apply_witness_spec(m, g).records.map_values(|c: ClaimRecord| claim_row(c)) == replace_at_key(
            m.records.map_values(|c: ClaimRecord| claim_row(c)),
            g.claim as int,
            Some(ShadowClaim { witnessed: true, ..claim_row(claim_of(m, g.claim).unwrap()) }),
        ),
{
    lemma_sorted_unique(m.records);
    let i = key_index(m.records, g.claim as int);
    let rec = m.records[i];
    let new_rec = ClaimRecord { witnessed: true, revision: (rec.revision + 1) as u64, ..rec };
    let target = apply_witness_spec(m, g);
    assert forall|j: int| 0 <= j < m.records.len() implies target.records[j] == m.records.update(
        i,
        new_rec,
    )[j] by {
        if j != i {
            assert(m.records[j].key() != m.records[i].key());
        }
    }
    assert(target.records =~= m.records.update(i, new_rec));
    let f = |c: ClaimRecord| claim_row(c);
    let t = m.records.map_values(f);
    lemma_map_sorted(m.records, f);
    let row = claim_row(new_rec);
    assert(target.records.map_values(f) =~= t.update(i, row));
    lemma_replace_is_update(t, i, row);
}

/// The shadow's site table after an extraction is the image of the
/// owner's.
proof fn lemma_sites_after_extract(m: EconomyModel, e: ExtractFacts)
    requires
        economy_wf(m),
        site_of(m, e.site) matches Some(x) && e.granted <= x.stock,
    ensures
        apply_extract_spec(m, e).sites.map_values(|x: SiteRecord| site_row(x)) == replace_at_key(
            m.sites.map_values(|x: SiteRecord| site_row(x)),
            e.site as int,
            Some(
                ShadowSite {
                    stock: (site_of(m, e.site).unwrap().stock - e.granted) as u64,
                    ..site_row(site_of(m, e.site).unwrap())
                },
            ),
        ),
{
    lemma_sorted_unique(m.sites);
    let i = key_index(m.sites, e.site as int);
    let rec = m.sites[i];
    let new_rec = SiteRecord {
        stock: (rec.stock - e.granted) as u64,
        revision: (rec.revision + 1) as u64,
        ..rec
    };
    let target = apply_extract_spec(m, e);
    assert forall|j: int| 0 <= j < m.sites.len() implies target.sites[j] == m.sites.update(i, new_rec)[j] by {
        if j != i {
            assert(m.sites[j].key() != m.sites[i].key());
        }
    }
    assert(target.sites =~= m.sites.update(i, new_rec));
    let f = |x: SiteRecord| site_row(x);
    let t = m.sites.map_values(f);
    lemma_map_sorted(m.sites, f);
    let row = site_row(new_rec);
    assert(target.sites.map_values(f) =~= t.update(i, row));
    lemma_replace_is_update(t, i, row);
}

/// Setting a holding, seen by the shadow, is adding the difference to the
/// holding it reads.
proof fn lemma_holdings_after_set(m: EconomyModel, id: u64, k: ResourceKind, grams: u64)
    requires
        sorted_by_key(m.holdings),
        grams >= holding_of(m, id, k),
    ensures
        set_holding_spec(m, id, k, grams).holdings.map_values(|h: HoldingRecord| holding_row(h))
            == add_holding_spec(
            m.holdings.map_values(|h: HoldingRecord| holding_row(h)),
            id,
            kind_index(k) as usize,
            (grams - holding_of(m, id, k)) as u64,
        ),
{
    let f = |h: HoldingRecord| holding_row(h);
    let x = if grams == 0 {
        None
    } else {
        Some(HoldingRecord { id, kind: k, grams })
    };
    lemma_sorted_unique(m.holdings);
    lemma_lookup_map(m.holdings, f, holding_key(id, k));
    lemma_map_replace(m.holdings, f, holding_key(id, k), x);
}

/// The shadow's gather agrees with the boundary's.
proof fn lemma_shadow_agrees_gather(w: WorldModel, seq: u64, g: GatherCommand)
    requires
        submittable(w),
    ensures
        shadow_gather_spec(shadow_of_world(w), g).0 == shadow_of_world(submit_spec(w, seq, Command::Gather(g)).0),
        matches_spec(shadow_gather_spec(shadow_of_world(w), g).1, submit_spec(w, seq, Command::Gather(g)).1),
{
    lemma_shadow_lookups(w);
    lemma_mass_from(0);
    if plan_gather_spec(w, g) is Ok {
        let p = plan_gather_spec(w, g)->Ok_0;
        let e = p.extraction;
        lemma_gather_ready(w, g);
        lemma_mass_from(e.granted);
        lemma_stamina_after_spend(w.characters, p.spend);
        lemma_sites_after_extract(w.economy, e);
        let m = w.economy;
        let m1 = EconomyModel {
            sites: apply_extract_spec(m, e).sites,
            ..m
        };
        assert(m1.holdings == m.holdings);
        lemma_holdings_after_set(m1, e.to, e.kind, (holding_of(m, e.to, e.kind) + e.granted) as u64);
        let after = submit_spec(w, seq, Command::Gather(g)).0;
        let next = shadow_gather_spec(shadow_of_world(w), g).0;
        assert(next.stamina == shadow_of_world(after).stamina);
        assert(next.holdings == shadow_of_world(after).holdings);
        assert(next.sites == shadow_of_world(after).sites);
        assert(next.claims == shadow_of_world(after).claims);
    }
}

/// The shadow's witness attestation agrees with the boundary's.
proof fn lemma_shadow_agrees_witness(w: WorldModel, seq: u64, x: WitnessCommand)
    requires
        submittable(w),
    ensures
        shadow_witness_spec(shadow_of_world(w), x).0 == shadow_of_world(submit_spec(w, seq, Command::Witness(x)).0),
        matches_spec(shadow_witness_spec(shadow_of_world(w), x).1, submit_spec(w, seq, Command::Witness(x)).1),
{
    lemma_shadow_lookups(w);
    lemma_mass_from(0);
    if plan_witness_spec(w, x) is Ok {
        let p = plan_witness_spec(w, x)->Ok_0;
        lemma_stamina_after_spend(w.characters, p.spend);
        lemma_claims_after_witness(w.social, p.grant);
        let after = submit_spec(w, seq, Command::Witness(x)).0;
        let next = shadow_witness_spec(shadow_of_world(w), x).0;
        assert(next.stamina == shadow_of_world(after).stamina);
        assert(next.holdings == shadow_of_world(after).holdings);
        assert(next.sites == shadow_of_world(after).sites);
        assert(next.claims == shadow_of_world(after).claims);
    }
}

/// The shadow's holdings after a transfer: drain the giver's holding
/// (dropping it when emptied), then add to the recipient's.
proof fn lemma_holdings_after_transfer(m: EconomyModel, t: TransferFacts)
    requires
        economy_wf(m),
        t.from != t.to,
        t.grams <= holding_of(m, t.from, t.kind),
        holding_of(m, t.to, t.kind) + t.grams <= u64::MAX,
    ensures
        ({
            let hs = m.holdings.map_values(|h: HoldingRecord| holding_row(h));
            let kind = kind_index(t.kind) as usize;
            let held = held_in(hs, t.from, kind);
            let drained = replace_at_key(
                hs,
                holding_slot(t.from, kind),
                if held == t.grams {
                    None
                } else {
                    Some(ShadowHolding { id: t.from, kind, grams: (held - t.grams) as u64 })
                },
            );
            apply_transfer_spec(m, t).holdings.map_values(|h: HoldingRecord| holding_row(h))
                == add_holding_spec(drained, t.to, kind, t.grams)
        }),
{
    let f = |h: HoldingRecord| holding_row(h);
    let next_from = (holding_of(m, t.from, t.kind) - t.grams) as u64;
    let next_to = (holding_of(m, t.to, t.kind) + t.grams) as u64;
    let x = if next_from == 0 {
        None
    } else {
        Some(HoldingRecord { id: t.from, kind: t.kind, grams: next_from })
    };
    lemma_sorted_unique(m.holdings);
    lemma_lookup_map(m.holdings, f, holding_key(t.from, t.kind));
    lemma_map_replace(m.holdings, f, holding_key(t.from, t.kind), x);
    lemma_set_holding(m, t.from, t.kind, next_from);
    let m1 = set_holding_spec(m, t.from, t.kind, next_from);
    assert(holding_of(m1, t.to, t.kind) == holding_of(m, t.to, t.kind));
    lemma_holdings_after_set(m1, t.to, t.kind, next_to);
}

/// The shadow's give expects what the boundary's receipt says.
proof fn lemma_shadow_give_expectation(w: WorldModel, seq: u64, g: GiveCommand)
    requires
        submittable(w),
    ensures
        matches_spec(shadow_give_spec(shadow_of_world(w), g).1, submit_spec(w, seq, Command::Give(g)).1),
{
    lemma_shadow_lookups(w);
    lemma_mass_from(0);
    lemma_mass_from(g.grams@);
}

/// The shadow's give agrees with the boundary's.
proof fn lemma_shadow_agrees_give(w: WorldModel, seq: u64, g: GiveCommand)
    requires
        submittable(w),
    ensures
        shadow_give_spec(shadow_of_world(w), g).0 == shadow_of_world(submit_spec(w, seq, Command::Give(g)).0),
        matches_spec(shadow_give_spec(shadow_of_world(w), g).1, submit_spec(w, seq, Command::Give(g)).1),
{
    lemma_shadow_give_expectation(w, seq, g);
    if plan_give_spec(w, g) is Ok {
        lemma_shadow_lookups(w);
        let p = plan_give_spec(w, g)->Ok_0;
        lemma_give_ready(w, g);
        lemma_stamina_after_spend(w.characters, p.spend);
        lemma_holdings_after_transfer(w.economy, p.transfer);
        let after = submit_spec(w, seq, Command::Give(g)).0;
        let next = shadow_give_spec(shadow_of_world(w), g).0;
        assert(next.stamina == shadow_of_world(after).stamina);
        assert(next.holdings == shadow_of_world(after).holdings);
        assert(next.sites == shadow_of_world(after).sites);
        assert(next.claims == shadow_of_world(after).claims);
    }
}

/// Stepping the shadow from a world's tables gives exactly the tables of
/// the world one submit leaves behind, and an expectation that submit's
/// receipt meets.
pub proof fn law_shadow_agrees_with_submit(w: WorldModel, seq: u64, cmd: Command)
    requires
        submittable(w),
    ensures
        shadow_step_spec(shadow_of_world(w), cmd).0 == shadow_of_world(submit_spec(w, seq, cmd).0),
        matches_spec(shadow_step_spec(shadow_of_world(w), cmd).1, submit_spec(w, seq, cmd).1),
{
    match cmd {
        Command::Gather(g) => lemma_shadow_agrees_gather(w, seq, g),
        Command::Witness(x) => lemma_shadow_agrees_witness(w, seq, x),
        Command::Give(g) => lemma_shadow_agrees_give(w, seq, g),
    }
}

/// Over a whole run from a settled world the shadow ends on the final
/// world's tables, and every receipt meets the shadow's expectation for
/// its command.
pub proof fn law_shadow_agrees_with_run(w0: WorldModel, cmds: Seq<Command>)
    requires
        settled(w0),
        room_for(w0, cmds.len() as int),
    ensures
        shadow_run_spec(shadow_of_world(w0), cmds).0 == shadow_of_world(run_spec(w0, cmds).0),
        shadow_run_spec(shadow_of_world(w0), cmds).1.len() == cmds.len(),
        run_spec(w0, cmds).1.len() == cmds.len(),
        forall|i: int|
            0 <= i < cmds.len() ==> matches_spec(
                #[trigger] shadow_run_spec(shadow_of_world(w0), cmds).1[i],
                run_spec(w0, cmds).1[i],
            ),
    decreases cmds.len(),
{
    if cmds.len() > 0 {
        let prefix = cmds.drop_last();
        let n = cmds.len() as int;
        law_shadow_agrees_with_run(w0, prefix);
        lemma_run_settles(w0, cmds);
        let prev = run_spec(w0, prefix);
        law_shadow_agrees_with_submit(prev.0, cmds.len() as u64, cmds.last());
        let sh = shadow_run_spec(shadow_of_world(w0), cmds).1;
        let log = run_spec(w0, cmds).1;
        assert forall|i: int| 0 <= i < n implies matches_spec(#[trigger] sh[i], log[i]) by {
            if i < n - 1 {
                assert(sh[i] == shadow_run_spec(shadow_of_world(w0), prefix).1[i]);
                assert(log[i] == prev.1[i]);
            }
        }
    }
}

/// No mismatch is counted where every compared receipt meets its
/// expectation.
proof fn lemma_no_mismatches(exps: Seq<Expectation>, log: Seq<Receipt>, n: int)
    requires
        0 <= n,
        forall|i: int| 0 <= i < n ==> matches_spec(#[trigger] exps[i], log[i]),
    ensures
        mismatches(exps, log, n) == 0,
    decreases n,
{
    if n > 0 {
        lemma_no_mismatches(exps, log, n - 1);
    }
}

/// A genuine run passes the oracle suite: when the final world and the
/// receipts are exactly what running the commands from the fixture gives,
/// and the baseline is the fixture's per-kind mass, mass is conserved per
/// kind and in aggregate, every movement had authority, no exhausted actor
/// extracted, every yield lay in the active cell, replay reproduces the
/// run, the shadow expects every receipt and ends on the final world's
/// tables — and the hash chain breaks only where a command went through
/// without moving the world hash.
pub proof fn law_genuine_run_passes_the_oracles(ctx: OracleCtx)
    requires
        ctx_ready(ctx),
        (ctx.world@, ctx.log@) == run_spec(ctx.fixture@, ctx.commands@),
        forall|k: ResourceKind| #[trigger] ctx.baseline_by_kind@[kind_index(k)]@ == total_of_kind(
            ctx.fixture@.economy,
            k,
        ),
    ensures
        mass_conserved_pass(ctx),
        authority_pass(ctx.log@),
        count_where(ctx.log@, |x: Receipt| exhausted_extraction(x)) == 0,
        count_where(ctx.log@, |x: Receipt| outside_cell(x)) == 0,
        replay_states_match(ctx),
        replay_hashes_match(ctx),
        replay_lines_match(ctx),
        chain_violations(ctx.log@, world_hash_spec(ctx.fixture@), ctx.log@.len() as int) == count_where(
            ctx.log@,
            |x: Receipt| hash_unmoved(x),
        ),
        shadow_violations(ctx) == 0,
        divergences(shadow_run_spec(shadow_of_world(ctx.fixture@), ctx.commands@).0, ctx.world@) == 0,
{
    let w0 = ctx.fixture@;
    let cmds = ctx.commands@;
    assert forall|k: ResourceKind| total_of_kind(ctx.world@.economy, k)
        == #[trigger] ctx.baseline_by_kind@[kind_index(k)]@ by {
        law_run_conserves_every_kind(w0, cmds, k);
    }
    law_run_conserves_every_kind(w0, cmds, ResourceKind::Fodder);
    lemma_kinds_sum_to_total(w0.economy);
    assert(ctx.baseline_by_kind@[kind_index(ResourceKind::Fodder)]@ == total_of_kind(w0.economy, ResourceKind::Fodder));
    assert(ctx.baseline_by_kind@[kind_index(ResourceKind::Food)]@ == total_of_kind(w0.economy, ResourceKind::Food));
    assert(ctx.baseline_by_kind@[kind_index(ResourceKind::Timber)]@ == total_of_kind(w0.economy, ResourceKind::Timber));
    law_run_receipts_pass_the_audits(w0, cmds);
    law_run_chain_holds(w0, cmds);
    law_shadow_agrees_with_run(w0, cmds);
    assert(compared(ctx) == cmds.len());
    assert(cmds.take(compared(ctx)) =~= cmds);
    lemma_no_mismatches(shadow_run_spec(shadow_of_world(w0), cmds).1, ctx.log@, cmds.len() as int);
}

} // verus!
