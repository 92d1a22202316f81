//! Laws of whole runs: what every run of commands from a settled world
//! keeps, and why a genuine run passes the receipt audits the oracles
//! perform.

use vstd::prelude::*;

use crate::boundary::{
    lemma_gather_ready, lemma_give_ready, plan_gather_spec, plan_give_spec, plan_witness_spec,
    revisions_within, room_for, run_spec, settled, submit_spec, submittable, Command,
};
use crate::character::lemma_apply_spend_keeps_wf;
use crate::economy::{
    lemma_apply_extract_keeps_wf, lemma_apply_transfer_keeps_wf, total_mass_spec, total_of_kind,
};
use crate::laws::{
    law_gather_moves_mass_only_through_a_witnessed_claim, law_gather_yield_is_the_active_cell,
    law_receipt_hashes_bracket_the_command, law_refusal_costs_nothing, law_refusal_mutates_nothing,
    law_submit_conserves_every_kind, law_submit_keeps_holdings_with_characters,
};
use crate::oracles::{
    chain_violations, count_where, exhausted_extraction, expected_before, outside_cell,
    unconsented_transfer, unwitnessed_extraction,
};
use crate::receipt::Receipt;
use crate::social::lemma_apply_witness_keeps_wf;
use crate::vocab::{lemma_mass_from, ResourceKind};
use crate::canon::holdings_belong_to_characters;
use crate::world::{canonical_lines, law_hash_follows_canonical_state, world_hash_spec, WorldModel};

verus! {

/// A submit from a submittable world leaves a settled world behind, with
/// every owner counter advanced by at most one.
pub proof fn lemma_submit_settles(w: WorldModel, seq: u64, cmd: Command)
    requires
        submittable(w),
    ensures
        settled(submit_spec(w, seq, cmd).0),
        revisions_within(w, submit_spec(w, seq, cmd).0, 1),
{
    match cmd {
        Command::Gather(g) => {
            if plan_gather_spec(w, g) is Ok {
                let p = plan_gather_spec(w, g)->Ok_0;
                lemma_gather_ready(w, g);
                lemma_apply_spend_keeps_wf(w.characters, p.spend);
                lemma_apply_extract_keeps_wf(w.economy, p.extraction);
            }
        },
        Command::Witness(x) => {
            if plan_witness_spec(w, x) is Ok {
                let p = plan_witness_spec(w, x)->Ok_0;
                lemma_apply_spend_keeps_wf(w.characters, p.spend);
                lemma_apply_witness_keeps_wf(w.social, p.grant);
            }
        },
        Command::Give(g) => {
            if plan_give_spec(w, g) is Ok {
                let p = plan_give_spec(w, g)->Ok_0;
                lemma_give_ready(w, g);
                lemma_apply_spend_keeps_wf(w.characters, p.spend);
                lemma_apply_transfer_keeps_wf(w.economy, p.transfer);
            }
        },
    }
    law_submit_conserves_every_kind(w, seq, cmd, ResourceKind::Fodder);
}

/// The state before each command of a run is submittable, and the run
/// ends settled with every owner counter advanced by at most the number
/// of commands.
pub proof fn lemma_run_settles(w0: WorldModel, cmds: Seq<Command>)
    requires
        settled(w0),
        room_for(w0, cmds.len() as int),
    ensures
        settled(run_spec(w0, cmds).0),
        revisions_within(w0, run_spec(w0, cmds).0, cmds.len() as int),
        cmds.len() > 0 ==> submittable(run_spec(w0, cmds.drop_last()).0),
    decreases cmds.len(),
{
    if cmds.len() > 0 {
        let prefix = cmds.drop_last();
        lemma_run_settles(w0, prefix);
        let prev = run_spec(w0, prefix).0;
        assert(submittable(prev));
        lemma_submit_settles(prev, cmds.len() as u64, cmds.last());
    }
}

/// A run neither creates nor destroys mass: every kind's total, and the
/// total of all kinds, are the same at its end as at its start.
pub proof fn law_run_conserves_every_kind(w0: WorldModel, cmds: Seq<Command>, kind: ResourceKind)
    requires
        settled(w0),
        room_for(w0, cmds.len() as int),
    ensures
        total_of_kind(run_spec(w0, cmds).0.economy, kind) == total_of_kind(w0.economy, kind),
        total_mass_spec(run_spec(w0, cmds).0.economy) == total_mass_spec(w0.economy),
    decreases cmds.len(),
{
    if cmds.len() > 0 {
        let prefix = cmds.drop_last();
        law_run_conserves_every_kind(w0, prefix, kind);
        lemma_run_settles(w0, cmds);
        law_submit_conserves_every_kind(run_spec(w0, prefix).0, cmds.len() as u64, cmds.last(), kind);
    }
}

/// A run keeps every stored holding with a character of the world.
pub proof fn law_run_keeps_holdings_with_characters(w0: WorldModel, cmds: Seq<Command>)
    requires
        settled(w0),
        room_for(w0, cmds.len() as int),
        holdings_belong_to_characters(w0),
    ensures
        holdings_belong_to_characters(run_spec(w0, cmds).0),
    decreases cmds.len(),
{
    if cmds.len() > 0 {
        let prefix = cmds.drop_last();
        law_run_keeps_holdings_with_characters(w0, prefix);
        lemma_run_settles(w0, cmds);
        law_submit_keeps_holdings_with_characters(run_spec(w0, prefix).0, cmds.len() as u64, cmds.last());
    }
}

/// Two runs, each from a settled world whose holdings all belong to its
/// characters, that end in the same canonical state end with the same
/// world hash.
pub proof fn law_runs_with_equal_canonical_state_hash_equal(
    a0: WorldModel,
    a: Seq<Command>,
    b0: WorldModel,
    b: Seq<Command>,
)
    requires
        settled(a0),
        room_for(a0, a.len() as int),
        holdings_belong_to_characters(a0),
        settled(b0),
        room_for(b0, b.len() as int),
        holdings_belong_to_characters(b0),
        canonical_lines(run_spec(a0, a).0) == canonical_lines(run_spec(b0, b).0),
    ensures
        world_hash_spec(run_spec(a0, a).0) == world_hash_spec(run_spec(b0, b).0),
{
    lemma_run_settles(a0, a);
    lemma_run_settles(b0, b);
    law_run_keeps_holdings_with_characters(a0, a);
    law_run_keeps_holdings_with_characters(b0, b);
    law_hash_follows_canonical_state(run_spec(a0, a).0, run_spec(b0, b).0);
}

/// One submit's receipt passes every receipt audit: no unwitnessed or
/// exhausted extraction, no unconsented transfer, no yield outside the
/// active cell.
pub proof fn lemma_receipt_is_clean(w: WorldModel, seq: u64, cmd: Command)
    requires
        submittable(w),
    ensures
        ({
            let r = submit_spec(w, seq, cmd).1;
            &&& !unwitnessed_extraction(r)
            &&& !unconsented_transfer(r)
            &&& !exhausted_extraction(r)
            &&& !outside_cell(r)
        }),
{
    let r = submit_spec(w, seq, cmd).1;
    lemma_mass_from(0);
    if r.outcome is Refused {
        law_refusal_costs_nothing(w, seq, cmd);
    } else {
        match cmd {
            Command::Gather(g) => {
                law_gather_moves_mass_only_through_a_witnessed_claim(w, seq, g);
                law_gather_yield_is_the_active_cell(w, seq, g);
            },
            Command::Witness(_) => {},
            Command::Give(_) => {},
        }
    }
}

/// Appending one receipt adds at most one to a count.
proof fn lemma_count_push(log: Seq<Receipt>, r: Receipt, p: spec_fn(Receipt) -> bool)
    ensures
        count_where(log.push(r), p) == count_where(log, p) + if p(r) {
            1nat
        } else {
            0nat
        },
{
    assert(log.push(r).drop_last() =~= log);
}

/// Every receipt of a run passes the receipt audits: no receipt records an
/// unwitnessed extraction, an unconsented transfer, an extraction by an
/// exhausted actor, or a yield outside the active cell.
pub proof fn law_run_receipts_pass_the_audits(w0: WorldModel, cmds: Seq<Command>)
    requires
        settled(w0),
        room_for(w0, cmds.len() as int),
    ensures
        count_where(run_spec(w0, cmds).1, |x: Receipt| unwitnessed_extraction(x)) == 0,
        count_where(run_spec(w0, cmds).1, |x: Receipt| unconsented_transfer(x)) == 0,
        count_where(run_spec(w0, cmds).1, |x: Receipt| exhausted_extraction(x)) == 0,
        count_where(run_spec(w0, cmds).1, |x: Receipt| outside_cell(x)) == 0,
    decreases cmds.len(),
{
    if cmds.len() > 0 {
        let prefix = cmds.drop_last();
        law_run_receipts_pass_the_audits(w0, prefix);
        lemma_run_settles(w0, cmds);
        let prev = run_spec(w0, prefix);
        let r = submit_spec(prev.0, cmds.len() as u64, cmds.last()).1;
        lemma_receipt_is_clean(prev.0, cmds.len() as u64, cmds.last());
        lemma_count_push(prev.1, r, |x: Receipt| unwitnessed_extraction(x));
        lemma_count_push(prev.1, r, |x: Receipt| unconsented_transfer(x));
        lemma_count_push(prev.1, r, |x: Receipt| exhausted_extraction(x));
        lemma_count_push(prev.1, r, |x: Receipt| outside_cell(x));
    }
}

/// A receipt whose command went through although the world hash did not
/// move: the one way a genuine run can trip the hash-chain audit, and only
/// by a hash collision, since every command that goes through changes the
/// world.
pub open spec fn hash_unmoved(r: Receipt) -> bool {
    !(r.outcome is Refused) && r.world_hash_after == r.world_hash_before
}

/// Appending a receipt leaves the chain audit of the receipts before it
/// unchanged.
proof fn lemma_chain_push(log: Seq<Receipt>, r: Receipt, start: u64, m: int)
    requires
        0 <= m <= log.len(),
    ensures
        chain_violations(log.push(r), start, m) == chain_violations(log, start, m),
    decreases m,
{
    if m > 0 {
        lemma_chain_push(log, r, start, m - 1);
        assert(log.push(r)[m - 1] == log[m - 1]);
        assert(expected_before(log.push(r), m - 1, start) == expected_before(log, m - 1, start));
    }
}

/// The hash chain of a run links up: every receipt's before-hash is the
/// previous receipt's after-hash (the first one's, the start world's hash),
/// and every refusal leaves the hash in place. So the chain audit counts
/// exactly the receipts that went through without moving the hash.
pub proof fn law_run_chain_holds(w0: WorldModel, cmds: Seq<Command>)
    requires
        settled(w0),
        room_for(w0, cmds.len() as int),
    ensures
        run_spec(w0, cmds).1.len() == cmds.len(),
        chain_violations(run_spec(w0, cmds).1, world_hash_spec(w0), cmds.len() as int) == count_where(
            run_spec(w0, cmds).1,
            |x: Receipt| hash_unmoved(x),
        ),
        cmds.len() > 0 ==> run_spec(w0, cmds).1.last().world_hash_after == world_hash_spec(
            run_spec(w0, cmds).0,
        ),
    decreases cmds.len(),
{
    if cmds.len() > 0 {
        let prefix = cmds.drop_last();
        let n = cmds.len() as int;
        law_run_chain_holds(w0, prefix);
        lemma_run_settles(w0, cmds);
        let prev = run_spec(w0, prefix);
        let seq = cmds.len() as u64;
        let r = submit_spec(prev.0, seq, cmds.last()).1;
        let log = prev.1.push(r);
        law_receipt_hashes_bracket_the_command(prev.0, seq, cmds.last());
        if r.outcome is Refused {
            law_refusal_mutates_nothing(prev.0, seq, cmds.last());
        }
        lemma_chain_push(prev.1, r, world_hash_spec(w0), n - 1);
        assert(log[n - 1] == r);
        if n == 1 {
            assert(prefix.len() == 0);
            assert(prev.0 == w0);
        } else {
            assert(log[n - 2] == prev.1.last());
        }
        assert(expected_before(log, n - 1, world_hash_spec(w0)) == r.world_hash_before);
        lemma_count_push(prev.1, r, |x: Receipt| hash_unmoved(x));
    }
}

} // verus!
