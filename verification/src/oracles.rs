//! Exactly ten bounded oracles.
//!
//! Each oracle is a pure check over bounded inputs — the current world,
//! the receipt log, and a replayable fixture — and returns a verdict.
//! `run_all` returns a fixed-size array, so the count of ten is enforced
//! by the type system.
//!
//! Oracles 1–2 audit state, 3–6 audit the receipt log, 7 replays the whole
//! trial through the real implementation, 8 checks the hash chain and that
//! refusals mutate nothing, and 9–10 recompute the trial with an
//! independent shadow evaluator that never trusts receipt fields: 9 checks
//! every expected receipt, 10 checks the final world state itself.

use vstd::prelude::*;

use crate::boundary::{room_for, run_commands, run_spec, settled, submit_spec};
use crate::character::character_wf;
use crate::command::Command;
use crate::economy::{lemma_kinds_sum_to_total, total_mass_spec, total_of_kind};
use crate::grammar::{yield_cell, YIELD_TABLE_GRAMS};
use crate::receipt::{receipt_line, Receipt};
use crate::shadow::{
    divergences, lemma_shadow_run, matches_spec, shadow_of_world, shadow_run_spec, shadow_wf,
    Expectation, ShadowModel, ShadowState,
};
use crate::text::{dec_chars, push_decimal, push_str, str_equals, string_of, strings_equal};
use crate::vocab::{
    band_index, codes_round_trip_spec, kind_at, kind_code, kind_index, tier_index, MassGrams,
    OutcomeKind, ResourceKind, StaminaBand, Verb, KIND_COUNT,
};
use crate::world::{bool_chars, canonical_lines, world_hash_spec, World, WorldModel};

verus! {

pub const ORACLE_COUNT: usize = 10;

/// Which judge evaluated a run. The oracle count is type-enforced; this
/// number names the behaviour of the set and moves with any change to it.
pub const ORACLE_SUITE_VERSION: u32 = 6;

/// The outcome of one oracle: its name, pass or fail, and a line of
/// detail.
pub struct OracleVerdict {
    pub name: &'static str,
    pub pass: bool,
    pub detail: String,
}

/// The fixture's per-kind mass baseline, indexed by `ResourceKind::index`.
pub type KindBaseline = [MassGrams; KIND_COUNT];

/// The per-kind baseline of a seeded fixture — the value oracle 2 audits
/// every later state against.
pub fn baseline_by_kind(world: &World) -> (r: KindBaseline)
    requires
        settled(world@),
    ensures
        forall|k: ResourceKind| #[trigger] r@[kind_index(k)]@ == total_of_kind(world@.economy, k),
{
    proof {
        lemma_kinds_sum_to_total(world@.economy);
    }
    let mut baseline = [MassGrams::zero(), MassGrams::zero(), MassGrams::zero()];
    let kinds = ResourceKind::all();
    let mut i: usize = 0;
    while i < 3
        invariant
            i <= 3,
            settled(world@),
            forall|j: int| 0 <= j < 3 ==> #[trigger] kinds@[j] == kind_at(j),
            forall|k: ResourceKind| 0 <= #[trigger] total_of_kind(world@.economy, k) <= total_mass_spec(world@.economy),
            forall|j: int| 0 <= j < i ==> #[trigger] baseline@[j]@ == total_of_kind(world@.economy, kind_at(j)),
        decreases 3 - i,
    {
        let kind = kinds[i];
        baseline[kind.index()] = world.economy.total_mass_of(kind);
        i = i + 1;
    }
    proof {
        assert forall|k: ResourceKind| #[trigger] baseline@[kind_index(k)]@ == total_of_kind(world@.economy, k) by {
            match k {
                ResourceKind::Fodder => assert(kind_at(0) == k),
                ResourceKind::Food => assert(kind_at(1) == k),
                ResourceKind::Timber => assert(kind_at(2) == k),
            }
        }
    }
    baseline
}

/// Everything the oracles audit: the final world, the fixture's per-kind
/// baseline, the fixture itself (replayed by oracles 7–10), the commands
/// and the receipt log.
pub struct OracleCtx<'a> {
    pub world: &'a World,
    pub baseline_by_kind: KindBaseline,
    pub fixture: &'a World,
    pub commands: &'a [Command],
    pub log: &'a [Receipt],
}

/// What the oracles need of their inputs: settled worlds, a fixture with
/// room to replay every command, and a baseline whose total fits `u64`.
pub open spec fn ctx_ready(ctx: OracleCtx) -> bool {
    &&& settled(ctx.world@)
    &&& settled(ctx.fixture@)
    &&& room_for(ctx.fixture@, ctx.commands@.len() as int)
    &&& ctx.baseline_by_kind@[0]@ + ctx.baseline_by_kind@[1]@ + ctx.baseline_by_kind@[2]@ <= u64::MAX
}

/// How many receipts of `log` satisfy `p`.
pub open spec fn count_where(log: Seq<Receipt>, p: spec_fn(Receipt) -> bool) -> nat
    decreases log.len(),
{
    if log.len() == 0 {
        0
    } else {
        count_where(log.drop_last(), p) + if p(log.last()) {
            1nat
        } else {
            0nat
        }
    }
}

proof fn lemma_count_step(log: Seq<Receipt>, i: int, p: spec_fn(Receipt) -> bool)
    requires
        0 <= i < log.len(),
    ensures
        count_where(log.take(i + 1), p) == count_where(log.take(i), p) + if p(log[i]) {
            1nat
        } else {
            0nat
        },
        count_where(log.take(i), p) <= i,
    decreases i,
{
    assert(log.take(i + 1).drop_last() =~= log.take(i));
    if i > 0 {
        lemma_count_step(log, i - 1, p);
    }
}

proof fn lemma_count_all(log: Seq<Receipt>, p: spec_fn(Receipt) -> bool)
    ensures
        count_where(log.take(log.len() as int), p) == count_where(log, p),
{
    assert(log.take(log.len() as int) =~= log);
}

// ---------------------------------------------------------------------------
// 1. Stamina bounds
// ---------------------------------------------------------------------------

/// 1. Every character's stamina stays within `0..=Stamina::MAX`.
pub fn stamina_in_bounds(ctx: &OracleCtx) -> (r: OracleVerdict)
    requires
        ctx_ready(*ctx),
    ensures
        r.name@ == "stamina_in_bounds"@,
        r.pass == forall|i: int|
            0 <= i < ctx.world@.characters.records.len() ==> (#[trigger] ctx.world@.characters.records[i]).points
                <= 100,
        r.pass,
        r.detail@ == "all stamina within 0..=100"@,
{
    let all = ctx.world.characters.iter();
    let mut violations = String::new();
    let mut count: usize = 0;
    let mut i: usize = 0;
    while i < all.len()
        invariant
            i <= all@.len(),
            all@.len() == ctx.world@.characters.records.len(),
            character_wf(ctx.world@.characters),
            forall|j: int|
                0 <= j < all@.len() ==> (#[trigger] all@[j]).0.0 == ctx.world@.characters.records[j].id
                    && all@[j].1@ == ctx.world@.characters.records[j].points,
            count == 0,
        decreases all@.len() - i,
    {
        let (id, stamina) = all[i];
        if stamina.points() > crate::vocab::Stamina::MAX {
            if count > 0 {
                push_str(&mut violations, ",");
            }
            push_str(&mut violations, "C");
            push_decimal(&mut violations, id.0);
            push_str(&mut violations, "=");
            push_decimal(&mut violations, stamina.points() as u64);
            count = count + 1;
        }
        i = i + 1;
    }
    let pass = count == 0;
    OracleVerdict {
        name: "stamina_in_bounds",
        pass,
        detail: if pass {
            string_of("all stamina within 0..=100")
        } else {
            violations
        },
    }
}

// ---------------------------------------------------------------------------
// 2. Mass conservation
// ---------------------------------------------------------------------------

/// The detail of one kind's conservation check: `code=current g/baseline g`.
pub open spec fn kind_detail(k: ResourceKind, current: u64, baseline: u64) -> Seq<char> {
    kind_code(k) + "="@ + dec_chars(current as nat) + "g/"@ + dec_chars(baseline as nat) + "g"@
}

/// Every kind's total equals its baseline, and the whole equals the sum of
/// the baselines.
pub open spec fn mass_conserved_pass(ctx: OracleCtx) -> bool {
    &&& forall|k: ResourceKind|
        total_of_kind(ctx.world@.economy, k) == #[trigger] ctx.baseline_by_kind@[kind_index(k)]@
    &&& total_mass_spec(ctx.world@.economy) == ctx.baseline_by_kind@[0]@ + ctx.baseline_by_kind@[1]@
        + ctx.baseline_by_kind@[2]@
}

/// 2. Exact mass conservation, per kind and in aggregate: every kind's
///    total across sites and holdings equals its own fixture baseline, and
///    the whole equals the sum of the baselines.
pub fn mass_conserved(ctx: &OracleCtx) -> (r: OracleVerdict)
    requires
        ctx_ready(*ctx),
    ensures
        r.name@ == "mass_conserved"@,
        r.pass == mass_conserved_pass(*ctx),
        r.detail@ == kind_detail(
            ResourceKind::Fodder,
            total_of_kind(ctx.world@.economy, ResourceKind::Fodder) as u64,
            ctx.baseline_by_kind@[0]@,
        ) + " "@ + kind_detail(
            ResourceKind::Food,
            total_of_kind(ctx.world@.economy, ResourceKind::Food) as u64,
            ctx.baseline_by_kind@[1]@,
        ) + " "@ + kind_detail(
            ResourceKind::Timber,
            total_of_kind(ctx.world@.economy, ResourceKind::Timber) as u64,
            ctx.baseline_by_kind@[2]@,
        ) + " total="@ + dec_chars(total_mass_spec(ctx.world@.economy) as nat) + "g/"@ + dec_chars(
            (ctx.baseline_by_kind@[0]@ + ctx.baseline_by_kind@[1]@ + ctx.baseline_by_kind@[2]@) as nat,
        ) + "g"@,
{
    let ghost m = ctx.world@.economy;
    proof {
        lemma_kinds_sum_to_total(m);
    }
    let kinds = ResourceKind::all();
    let mut detail = String::new();
    let mut pass = true;
    let mut baseline_total: u64 = 0;
    let ghost b = ctx.baseline_by_kind@;
    let mut i: usize = 0;
    while i < 3
        invariant
            i <= 3,
            ctx_ready(*ctx),
            m == ctx.world@.economy,
            b == ctx.baseline_by_kind@,
            forall|j: int| 0 <= j < 3 ==> #[trigger] kinds@[j] == kind_at(j),
            forall|k: ResourceKind| 0 <= #[trigger] total_of_kind(m, k) <= total_mass_spec(m),
            baseline_total == (if i >= 1 { b[0]@ as int } else { 0 }) + (if i >= 2 { b[1]@ as int } else { 0 }) + (if i >= 3 { b[2]@ as int } else { 0 }),
            pass == forall|j: int| 0 <= j < i ==> total_of_kind(m, kind_at(j)) == #[trigger] b[j]@,
            detail@ == (if i >= 1 { kind_detail(kind_at(0), total_of_kind(m, kind_at(0)) as u64, b[0]@) } else { Seq::empty() })
                + (if i >= 2 { " "@ + kind_detail(kind_at(1), total_of_kind(m, kind_at(1)) as u64, b[1]@) } else { Seq::empty() })
                + (if i >= 3 { " "@ + kind_detail(kind_at(2), total_of_kind(m, kind_at(2)) as u64, b[2]@) } else { Seq::empty() }),
        decreases 3 - i,
    {
        let kind = kinds[i];
        let baseline = ctx.baseline_by_kind[kind.index()];
        let current = ctx.world.economy.total_mass_of(kind);
        if current.grams() != baseline.grams() {
            pass = false;
        }
        baseline_total = baseline_total + baseline.grams();
        let ghost before = detail@;
        if i > 0 {
            push_str(&mut detail, " ");
        }
        push_str(&mut detail, kind.code());
        push_str(&mut detail, "=");
        push_decimal(&mut detail, current.grams());
        push_str(&mut detail, "g/");
        push_decimal(&mut detail, baseline.grams());
        push_str(&mut detail, "g");
        proof {
            assert(kind_index(kind_at(i as int)) == i);
            let piece = kind_detail(kind_at(i as int), total_of_kind(m, kind_at(i as int)) as u64, b[i as int]@);
            if i > 0 {
                assert(detail@ =~= before + (" "@ + piece));
            } else {
                assert(detail@ =~= before + piece);
            }
            assert(pass == forall|j: int| 0 <= j < i + 1 ==> total_of_kind(m, kind_at(j)) == #[trigger] b[j]@);
        }
        i = i + 1;
    }
    let current_total = ctx.world.economy.total_mass();
    if current_total.grams() != baseline_total {
        pass = false;
    }
    push_str(&mut detail, " total=");
    push_decimal(&mut detail, current_total.grams());
    push_str(&mut detail, "g/");
    push_decimal(&mut detail, baseline_total);
    push_str(&mut detail, "g");
    proof {
        assert((forall|j: int| 0 <= j < 3 ==> total_of_kind(m, kind_at(j)) == #[trigger] b[j]@) == (forall|k: ResourceKind|
            total_of_kind(m, k) == #[trigger] b[kind_index(k)]@)) by {
            if forall|j: int| 0 <= j < 3 ==> total_of_kind(m, kind_at(j)) == #[trigger] b[j]@ {
                assert forall|k: ResourceKind| total_of_kind(m, k) == #[trigger] b[kind_index(k)]@ by {
                    match k {
                        ResourceKind::Fodder => assert(total_of_kind(m, kind_at(0)) == b[0]@),
                        ResourceKind::Food => assert(total_of_kind(m, kind_at(1)) == b[1]@),
                        ResourceKind::Timber => assert(total_of_kind(m, kind_at(2)) == b[2]@),
                    }
                }
            }
            if forall|k: ResourceKind| total_of_kind(m, k) == #[trigger] b[kind_index(k)]@ {
                assert(b[kind_index(ResourceKind::Fodder)]@ == total_of_kind(m, ResourceKind::Fodder));
                assert(b[kind_index(ResourceKind::Food)]@ == total_of_kind(m, ResourceKind::Food));
                assert(b[kind_index(ResourceKind::Timber)]@ == total_of_kind(m, ResourceKind::Timber));
                assert forall|j: int| 0 <= j < 3 implies total_of_kind(m, kind_at(j)) == #[trigger] b[j]@ by {
                }
            }
        }
    }
    OracleVerdict { name: "mass_conserved", pass, detail }
}

// ---------------------------------------------------------------------------
// 3–6. Receipt audits
// ---------------------------------------------------------------------------

/// Mass left a site through a claim that was not witnessed.
pub open spec fn unwitnessed_extraction(r: Receipt) -> bool {
    r.mass_moved@ > 0 && r.site is Some && !r.claim_witnessed
}

/// Mass moved between holdings with nobody distinct from the actor to
/// receive it, or with no kind named.
pub open spec fn unconsented_transfer(r: Receipt) -> bool {
    &&& r.mass_moved@ > 0
    &&& r.site is None
    &&& !(r.recipient matches Some(x) && r.kind is Some && x != r.actor)
}

/// No extraction without a witnessed claim and no transfer without a
/// distinct counterparty and a kind.
pub open spec fn authority_pass(log: Seq<Receipt>) -> bool {
    &&& count_where(log, |x: Receipt| unwitnessed_extraction(x)) == 0
    &&& count_where(log, |x: Receipt| unconsented_transfer(x)) == 0
}

/// 3. Every mass movement had authority for it: an extraction went through
///    a witnessed claim, and a transfer named a counterparty distinct from
///    the actor, and a kind.
pub fn mass_authority_gate(ctx: &OracleCtx) -> (r: OracleVerdict)
    ensures
        r.name@ == "mass_authority_gate"@,
        r.pass == authority_pass(ctx.log@),
        r.detail@ == dec_chars(count_where(ctx.log@, |x: Receipt| unwitnessed_extraction(x)))
            + " unwitnessed extractions, "@ + dec_chars(
            count_where(ctx.log@, |x: Receipt| unconsented_transfer(x)),
        ) + " unconsented transfers"@,
{
    let ghost p1 = |x: Receipt| unwitnessed_extraction(x);
    let ghost p2 = |x: Receipt| unconsented_transfer(x);
    let mut unwitnessed: usize = 0;
    let mut unconsented: usize = 0;
    let mut i: usize = 0;
    while i < ctx.log.len()
        invariant
            i <= ctx.log@.len(),
            p1 == (|x: Receipt| unwitnessed_extraction(x)),
            p2 == (|x: Receipt| unconsented_transfer(x)),
            unwitnessed == count_where(ctx.log@.take(i as int), p1),
            unconsented == count_where(ctx.log@.take(i as int), p2),
        decreases ctx.log@.len() - i,
    {
        let r = &ctx.log[i];
        proof {
            lemma_count_step(ctx.log@, i as int, p1);
            lemma_count_step(ctx.log@, i as int, p2);
        }
        if !r.mass_moved.is_zero() && r.site.is_some() && !r.claim_witnessed {
            unwitnessed = unwitnessed + 1;
        }
        if !r.mass_moved.is_zero() && r.site.is_none() {
            let consented = match (r.recipient, r.kind) {
                (Some(recipient), Some(_)) => recipient.0 != r.actor.0,
                _ => false,
            };
            if !consented {
                unconsented = unconsented + 1;
            }
        }
        i = i + 1;
    }
    proof {
        lemma_count_all(ctx.log@, p1);
        lemma_count_all(ctx.log@, p2);
    }
    let mut detail = String::new();
    push_decimal(&mut detail, unwitnessed as u64);
    push_str(&mut detail, " unwitnessed extractions, ");
    push_decimal(&mut detail, unconsented as u64);
    push_str(&mut detail, " unconsented transfers");
    OracleVerdict { name: "mass_authority_gate", pass: unwitnessed == 0 && unconsented == 0, detail }
}

/// Mass left a site with the actor exhausted or with no band recorded.
pub open spec fn exhausted_extraction(r: Receipt) -> bool {
    &&& r.mass_moved@ > 0
    &&& r.site is Some
    &&& !(r.band matches Some(b) && b != StaminaBand::Exhausted)
}

/// 4. An exhausted actor never extracts mass: every receipt that drains a
///    site sits in a non-exhausted stamina band.
pub fn exhausted_gate(ctx: &OracleCtx) -> (r: OracleVerdict)
    ensures
        r.name@ == "exhausted_gate"@,
        r.pass == (count_where(ctx.log@, |x: Receipt| exhausted_extraction(x)) == 0),
        r.detail@ == dec_chars(count_where(ctx.log@, |x: Receipt| exhausted_extraction(x)))
            + " exhausted or band-less receipts drained a site"@,
{
    let ghost p = |x: Receipt| exhausted_extraction(x);
    let mut violations: usize = 0;
    let mut i: usize = 0;
    while i < ctx.log.len()
        invariant
            i <= ctx.log@.len(),
            p == (|x: Receipt| exhausted_extraction(x)),
            violations == count_where(ctx.log@.take(i as int), p),
        decreases ctx.log@.len() - i,
    {
        let r = &ctx.log[i];
        proof {
            lemma_count_step(ctx.log@, i as int, p);
        }
        if !r.mass_moved.is_zero() && r.site.is_some() {
            let banded = match r.band {
                Some(band) => band != StaminaBand::Exhausted,
                None => false,
            };
            if !banded {
                violations = violations + 1;
            }
        }
        i = i + 1;
    }
    proof {
        lemma_count_all(ctx.log@, p);
    }
    let mut detail = String::new();
    push_decimal(&mut detail, violations as u64);
    push_str(&mut detail, " exhausted or band-less receipts drained a site");
    OracleVerdict { name: "exhausted_gate", pass: violations == 0, detail }
}

/// 5. Outcome reasons are closed: every receipt's codes round-trip through
///    the closed enums.
pub fn closed_reasons(ctx: &OracleCtx) -> (r: OracleVerdict)
    ensures
        r.name@ == "closed_reasons"@,
        r.pass == (count_where(ctx.log@, |x: Receipt| !codes_round_trip_spec(x.outcome)) == 0),
        r.pass,
        r.detail@ == dec_chars(count_where(ctx.log@, |x: Receipt| !codes_round_trip_spec(x.outcome)))
            + " receipts with unclosed reason codes"@,
{
    let ghost p = |x: Receipt| !codes_round_trip_spec(x.outcome);
    let mut violations: usize = 0;
    let mut i: usize = 0;
    while i < ctx.log.len()
        invariant
            i <= ctx.log@.len(),
            p == (|x: Receipt| !codes_round_trip_spec(x.outcome)),
            violations == count_where(ctx.log@.take(i as int), p),
            violations == 0,
        decreases ctx.log@.len() - i,
    {
        proof {
            lemma_count_step(ctx.log@, i as int, p);
        }
        if !ctx.log[i].outcome.codes_round_trip() {
            violations = violations + 1;
        }
        i = i + 1;
    }
    proof {
        lemma_count_all(ctx.log@, p);
    }
    let mut detail = String::new();
    push_decimal(&mut detail, violations as u64);
    push_str(&mut detail, " receipts with unclosed reason codes");
    OracleVerdict { name: "closed_reasons", pass: violations == 0, detail }
}

/// A gather that yielded mass outside the active cell: no band or tier
/// recorded, an accepted yield other than the cell value, or a partial
/// yield that is empty or not below the cell value.
pub open spec fn outside_cell(r: Receipt) -> bool {
    &&& r.verb == Verb::Gather
    &&& !(r.outcome is Refused)
    &&& match (r.band, r.tier) {
        (Some(b), Some(t)) => {
            let cell = yield_cell(band_index(b), tier_index(t));
            if r.outcome is Accepted {
                r.mass_moved@ != cell
            } else {
                r.mass_moved@ >= cell || r.mass_moved@ == 0
            }
        },
        _ => true,
    }
}

/// 6. Every yield stays inside the single active 4x4 cell.
pub fn cell_bounds(ctx: &OracleCtx) -> (r: OracleVerdict)
    ensures
        r.name@ == "cell_bounds"@,
        r.pass == (count_where(ctx.log@, |x: Receipt| outside_cell(x)) == 0),
        r.detail@ == dec_chars(count_where(ctx.log@, |x: Receipt| outside_cell(x)))
            + " receipts outside the 4x4 cell"@,
{
    let ghost p = |x: Receipt| outside_cell(x);
    let mut violations: usize = 0;
    let mut i: usize = 0;
    while i < ctx.log.len()
        invariant
            i <= ctx.log@.len(),
            p == (|x: Receipt| outside_cell(x)),
            violations == count_where(ctx.log@.take(i as int), p),
        decreases ctx.log@.len() - i,
    {
        let r = &ctx.log[i];
        proof {
            lemma_count_step(ctx.log@, i as int, p);
        }
        if r.verb == Verb::Gather && r.outcome.yields_mass() {
            let outside = match (r.band, r.tier) {
                (Some(band), Some(tier)) => {
                    let cell = YIELD_TABLE_GRAMS[band.index()][tier.index()];
                    match r.outcome {
                        OutcomeKind::Accepted => r.mass_moved.grams() != cell,
                        _ => r.mass_moved.grams() >= cell || r.mass_moved.is_zero(),
                    }
                },
                _ => true,
            };
            if outside {
                violations = violations + 1;
            }
        }
        i = i + 1;
    }
    proof {
        lemma_count_all(ctx.log@, p);
    }
    let mut detail = String::new();
    push_decimal(&mut detail, violations as u64);
    push_str(&mut detail, " receipts outside the 4x4 cell");
    OracleVerdict { name: "cell_bounds", pass: violations == 0, detail }
}

// ---------------------------------------------------------------------------
// 7. Replay determinism
// ---------------------------------------------------------------------------

/// The canonical line of every receipt, in order.
pub open spec fn log_lines(log: Seq<Receipt>) -> Seq<Seq<char>> {
    log.map_values(|r: Receipt| receipt_line(r))
}

proof fn lemma_lines_agree(x: Seq<String>, y: Seq<String>, a: Seq<Seq<char>>, b: Seq<Seq<char>>)
    requires
        x.len() == a.len(),
        y.len() == b.len(),
        forall|i: int| 0 <= i < x.len() ==> (#[trigger] x[i])@ == a[i],
        forall|i: int| 0 <= i < y.len() ==> (#[trigger] y[i])@ == b[i],
    ensures
        (x.len() == y.len() && forall|i: int| 0 <= i < x.len() ==> (#[trigger] x[i])@ == y[i]@) == (a
            == b),
{
    if x.len() == y.len() && forall|i: int| 0 <= i < x.len() ==> (#[trigger] x[i])@ == y[i]@ {
        assert forall|i: int| 0 <= i < a.len() implies a[i] == b[i] by {
            assert(x[i]@ == y[i]@);
        }
        assert(a =~= b);
    }
    if a == b {
        assert forall|i: int| 0 <= i < x.len() implies (#[trigger] x[i])@ == y[i]@ by {
            assert(a[i] == b[i]);
        }
    }
}

/// Canonical lines of a receipt log.
fn lines_of(log: &[Receipt]) -> (r: Vec<String>)
    ensures
        r@.len() == log@.len(),
        forall|i: int| 0 <= i < log@.len() ==> (#[trigger] r@[i])@ == log_lines(log@)[i],
{
    let mut out: Vec<String> = Vec::new();
    let mut i: usize = 0;
    while i < log.len()
        invariant
            i <= log@.len(),
            out@.len() == i,
            forall|j: int| 0 <= j < i ==> (#[trigger] out@[j])@ == log_lines(log@)[j],
        decreases log@.len() - i,
    {
        out.push(log[i].canonical_line());
        i = i + 1;
    }
    out
}

/// Whether two receipt logs print the same canonical lines.
fn logs_agree(a: &[Receipt], b: &[Receipt]) -> (r: bool)
    ensures
        r == (log_lines(a@) == log_lines(b@)),
{
    let x = lines_of(a);
    let y = lines_of(b);
    proof {
        lemma_lines_agree(x@, y@, log_lines(a@), log_lines(b@));
    }
    strings_equal(&x, &y)
}

/// Whether two worlds have the same exact canonical state.
fn states_agree(a: &World, b: &World) -> (r: bool)
    requires
        a.wf(),
        b.wf(),
    ensures
        r == (canonical_lines(a@) == canonical_lines(b@)),
{
    let x = a.canonical_state();
    let y = b.canonical_state();
    proof {
        lemma_lines_agree(x@, y@, canonical_lines(a@), canonical_lines(b@));
    }
    strings_equal(&x, &y)
}

pub open spec fn replay_states_match(ctx: OracleCtx) -> bool {
    canonical_lines(run_spec(ctx.fixture@, ctx.commands@).0) == canonical_lines(ctx.world@)
}

pub open spec fn replay_hashes_match(ctx: OracleCtx) -> bool {
    world_hash_spec(run_spec(ctx.fixture@, ctx.commands@).0) == world_hash_spec(ctx.world@)
}

pub open spec fn replay_lines_match(ctx: OracleCtx) -> bool {
    log_lines(run_spec(ctx.fixture@, ctx.commands@).1) == log_lines(ctx.log@)
}

/// 7. Determinism: replaying the fixture and commands through the real
///    implementation reproduces the same receipts, the same exact
///    canonical final state, and the same hash.
pub fn replay_determinism(ctx: &OracleCtx) -> (r: OracleVerdict)
    requires
        ctx_ready(*ctx),
    ensures
        r.name@ == "replay_determinism"@,
        r.pass == (replay_states_match(*ctx) && replay_hashes_match(*ctx) && replay_lines_match(*ctx)),
        r.detail@ == "states_match="@ + bool_chars(replay_states_match(*ctx)) + " hashes_match="@
            + bool_chars(replay_hashes_match(*ctx)) + " receipts_match="@ + bool_chars(
            replay_lines_match(*ctx),
        ),
{
    let mut replay_world = ctx.fixture.duplicate();
    let replay_log = run_commands(&mut replay_world, ctx.commands);
    let states_match = states_agree(&replay_world, ctx.world);
    let hashes_match = replay_world.hash() == ctx.world.hash();
    let lines_match = logs_agree(replay_log.as_slice(), ctx.log);
    let mut detail = string_of("states_match=");
    push_str(&mut detail, if states_match { "true" } else { "false" });
    push_str(&mut detail, " hashes_match=");
    push_str(&mut detail, if hashes_match { "true" } else { "false" });
    push_str(&mut detail, " receipts_match=");
    push_str(&mut detail, if lines_match { "true" } else { "false" });
    OracleVerdict {
        name: "replay_determinism",
        pass: states_match && hashes_match && lines_match,
        detail,
    }
}

// ---------------------------------------------------------------------------
// 8. Hash chain and refusal zero-mutation
// ---------------------------------------------------------------------------

/// The before-hash the i-th receipt must carry: the fixture hash for the
/// first, the previous receipt's after-hash for every later one.
pub open spec fn expected_before(log: Seq<Receipt>, i: int, start: u64) -> u64 {
    if i == 0 {
        start
    } else {
        log[i - 1].world_hash_after
    }
}

/// Violations one receipt contributes: a broken link, a refusal that moved
/// the hash, or a non-refusal that left it unchanged.
pub open spec fn link_violations(r: Receipt, expected: u64) -> nat {
    (if r.world_hash_before != expected {
        1nat
    } else {
        0nat
    }) + if r.outcome is Refused {
        if r.world_hash_after != r.world_hash_before {
            1nat
        } else {
            0nat
        }
    } else {
        if r.world_hash_after == r.world_hash_before {
            1nat
        } else {
            0nat
        }
    }
}

/// A receipt that breaks its link, a refusal that moved the world hash,
/// or a non-refusal that left it unchanged: any one of these among the
/// first `n` receipts makes the chain audit count a violation, so oracle 8
/// fails on it.
pub proof fn law_chain_audit_catches_every_bad_receipt(log: Seq<Receipt>, start: u64, n: int, i: int)
    requires
        0 <= i < n <= log.len(),
        ({
            let r = log[i];
            ||| r.world_hash_before != expected_before(log, i, start)
            ||| (r.outcome is Refused && r.world_hash_after != r.world_hash_before)
            ||| (!(r.outcome is Refused) && r.world_hash_after == r.world_hash_before)
        }),
    ensures
        chain_violations(log, start, n) >= 1,
    decreases n,
{
    if i < n - 1 {
        law_chain_audit_catches_every_bad_receipt(log, start, n - 1, i);
    }
}

/// Violations over the first `n` receipts of the chain.
pub open spec fn chain_violations(log: Seq<Receipt>, start: u64, n: int) -> nat
    decreases n,
{
    if n <= 0 {
        0
    } else {
        chain_violations(log, start, n - 1) + link_violations(log[n - 1], expected_before(log, n - 1, start))
    }
}

proof fn lemma_chain_bound(log: Seq<Receipt>, start: u64, n: int)
    requires
        n >= 0,
    ensures
        chain_violations(log, start, n) <= 2 * n,
    decreases n,
{
    if n > 0 {
        lemma_chain_bound(log, start, n - 1);
    }
}

/// 8. The hash chain holds and refusals are byte-identical no-ops: each
///    receipt's before-hash equals the previous after-hash (starting from
///    the fixture hash), every refused receipt leaves the hash unchanged,
///    and every other receipt changes it.
pub fn refusal_zero_mutation(ctx: &OracleCtx) -> (r: OracleVerdict)
    requires
        ctx.log@.len() <= usize::MAX / 2,
    ensures
        r.name@ == "refusal_zero_mutation"@,
        r.pass == (chain_violations(ctx.log@, world_hash_spec(ctx.fixture@), ctx.log@.len() as int) == 0),
        r.detail@ == dec_chars(chain_violations(ctx.log@, world_hash_spec(ctx.fixture@), ctx.log@.len() as int))
            + " hash-chain or mutation violations"@,
{
    let fixture_hash = ctx.fixture.hash();
    let mut violations: usize = 0;
    let mut expected: u64 = fixture_hash;
    let mut i: usize = 0;
    while i < ctx.log.len()
        invariant
            i <= ctx.log@.len() <= usize::MAX / 2,
            fixture_hash == world_hash_spec(ctx.fixture@),
            expected == expected_before(ctx.log@, i as int, fixture_hash),
            violations == chain_violations(ctx.log@, fixture_hash, i as int),
        decreases ctx.log@.len() - i,
    {
        proof {
            lemma_chain_bound(ctx.log@, fixture_hash, i as int);
        }
        let receipt = &ctx.log[i];
        if receipt.world_hash_before != expected {
            violations = violations + 1;
        }
        match receipt.outcome {
            OutcomeKind::Refused(_) => {
                if receipt.world_hash_after != receipt.world_hash_before {
                    violations = violations + 1;
                }
            },
            _ => {
                if receipt.world_hash_after == receipt.world_hash_before {
                    violations = violations + 1;
                }
            },
        }
        expected = receipt.world_hash_after;
        i = i + 1;
    }
    let mut detail = String::new();
    push_decimal(&mut detail, violations as u64);
    push_str(&mut detail, " hash-chain or mutation violations");
    OracleVerdict { name: "refusal_zero_mutation", pass: violations == 0, detail }
}

// ---------------------------------------------------------------------------
// 9–10. Shadow evaluation
// ---------------------------------------------------------------------------

/// How many of the first `n` receipts disagree with the shadow's
/// expectations.
pub open spec fn mismatches(exps: Seq<Expectation>, log: Seq<Receipt>, n: int) -> nat
    decreases n,
{
    if n <= 0 {
        0
    } else {
        mismatches(exps, log, n - 1) + if matches_spec(exps[n - 1], log[n - 1]) {
            0nat
        } else {
            1nat
        }
    }
}

proof fn lemma_mismatches_bound(exps: Seq<Expectation>, log: Seq<Receipt>, n: int)
    requires
        n >= 0,
    ensures
        mismatches(exps, log, n) <= n,
    decreases n,
{
    if n > 0 {
        lemma_mismatches_bound(exps, log, n - 1);
    }
}

/// Receipts compared by oracle 9: as many as both the log and the commands
/// have.
pub open spec fn compared(ctx: OracleCtx) -> int {
    if ctx.log@.len() < ctx.commands@.len() {
        ctx.log@.len() as int
    } else {
        ctx.commands@.len() as int
    }
}

/// Oracle 9's violations: one for a log whose length differs from the
/// commands', plus one per compared receipt the shadow disagrees with.
pub open spec fn shadow_violations(ctx: OracleCtx) -> nat {
    (if ctx.log@.len() != ctx.commands@.len() {
        1nat
    } else {
        0nat
    }) + mismatches(
        shadow_run_spec(shadow_of_world(ctx.fixture@), ctx.commands@.take(compared(ctx))).1,
        ctx.log@,
        compared(ctx),
    )
}

/// 9. Independent expectation: the shadow evaluator recomputes every step
///    from the immutable fixture and inputs and compares against the
///    receipts. It never trusts a receipt field, so an internally
///    consistent receipt lie still fails here.
pub fn shadow_expectation(ctx: &OracleCtx) -> (r: OracleVerdict)
    requires
        ctx_ready(*ctx),
    ensures
        r.name@ == "shadow_expectation"@,
        r.pass == (shadow_violations(*ctx) == 0),
        r.detail@ == dec_chars(shadow_violations(*ctx)) + " receipts diverge from the shadow evaluator"@,
{
    let mut shadow = ShadowState::from_fixture(ctx.fixture);
    let ghost m0 = shadow@;
    let ghost n = compared(*ctx);
    let ghost exps = shadow_run_spec(m0, ctx.commands@.take(n)).1;
    let mut violations: usize = 0;
    if ctx.log.len() != ctx.commands.len() {
        violations = 1;
    }
    let count = if ctx.log.len() < ctx.commands.len() {
        ctx.log.len()
    } else {
        ctx.commands.len()
    };
    proof {
        lemma_shadow_run(m0, ctx.commands@.take(n));
    }
    let mut i: usize = 0;
    while i < count
        invariant
            count == n,
            0 <= n <= ctx.log@.len(),
            n <= ctx.commands@.len(),
            i <= count,
            shadow_wf(m0),
            m0 == shadow_of_world(ctx.fixture@),
            exps == shadow_run_spec(m0, ctx.commands@.take(n)).1,
            exps.len() == n,
            shadow@ == shadow_run_spec(m0, ctx.commands@.take(i as int)).0,
            shadow_wf(shadow@),
            shadow_run_spec(m0, ctx.commands@.take(i as int)).1.len() == i,
            violations == (if ctx.log@.len() != ctx.commands@.len() {
                1nat
            } else {
                0nat
            }) + mismatches(exps, ctx.log@, i as int),
        decreases count - i,
    {
        proof {
            lemma_mismatches_bound(exps, ctx.log@, i as int);
            lemma_shadow_run(m0, ctx.commands@.take(i as int));
            let t = ctx.commands@.take(i as int + 1);
            assert(t.drop_last() =~= ctx.commands@.take(i as int));
            assert(t.last() == ctx.commands@[i as int]);
            lemma_run_prefix(m0, ctx.commands@.take(n), i as int + 1);
            assert(ctx.commands@.take(n).take(i as int + 1) =~= t);
        }
        let expected = shadow.step(&ctx.commands[i]);
        proof {
            let t = ctx.commands@.take(i as int + 1);
            assert(shadow_run_spec(m0, t).1[i as int] == expected@);
            assert(shadow_run_spec(m0, ctx.commands@.take(n).take(i as int + 1)).1[i as int] == exps[i as int]);
            assert(exps[i as int] == expected@);
        }
        if !expected.matches(&ctx.log[i]) {
            violations = violations + 1;
        }
        i = i + 1;
    }
    let mut detail = String::new();
    push_decimal(&mut detail, violations as u64);
    push_str(&mut detail, " receipts diverge from the shadow evaluator");
    OracleVerdict { name: "shadow_expectation", pass: violations == 0, detail }
}

/// Expectations of a run's prefix are the prefix of its expectations.
proof fn lemma_run_prefix(m: ShadowModel, cmds: Seq<Command>, k: int)
    requires
        0 <= k <= cmds.len(),
    ensures
        forall|j: int|
            0 <= j < k ==> #[trigger] shadow_run_spec(m, cmds.take(k)).1[j] == shadow_run_spec(m, cmds).1[j],
    decreases cmds.len(),
{
    if k < cmds.len() {
        lemma_run_prefix(m, cmds.drop_last(), k);
        assert(cmds.drop_last().take(k) =~= cmds.take(k));
        lemma_shadow_run_len(m, cmds.drop_last());
    } else {
        assert(cmds.take(k) =~= cmds);
    }
}

proof fn lemma_shadow_run_len(m: ShadowModel, cmds: Seq<Command>)
    ensures
        shadow_run_spec(m, cmds).1.len() == cmds.len(),
    decreases cmds.len(),
{
    if cmds.len() > 0 {
        lemma_shadow_run_len(m, cmds.drop_last());
    }
}

/// 10. Independent final-state proof: after stepping every command, the
///     shadow evaluator's final state must equal the actual final world —
///     stamina, per-kind holdings, site stocks and kinds, and claim gates.
pub fn shadow_final_state(ctx: &OracleCtx) -> (r: OracleVerdict)
    requires
        ctx_ready(*ctx),
    ensures
        r.name@ == "shadow_final_state"@,
        r.pass == (divergences(shadow_run_spec(shadow_of_world(ctx.fixture@), ctx.commands@).0, ctx.world@)
            == 0),
        r.detail@ == dec_chars(
            divergences(shadow_run_spec(shadow_of_world(ctx.fixture@), ctx.commands@).0, ctx.world@),
        ) + " truth domains diverge from the shadow final state"@,
{
    let mut shadow = ShadowState::from_fixture(ctx.fixture);
    let ghost m0 = shadow@;
    let mut i: usize = 0;
    while i < ctx.commands.len()
        invariant
            i <= ctx.commands@.len(),
            shadow_wf(m0),
            shadow@ == shadow_run_spec(m0, ctx.commands@.take(i as int)).0,
            shadow_wf(shadow@),
        decreases ctx.commands@.len() - i,
    {
        proof {
            let t = ctx.commands@.take(i as int + 1);
            assert(t.drop_last() =~= ctx.commands@.take(i as int));
            assert(t.last() == ctx.commands@[i as int]);
        }
        let _ = shadow.step(&ctx.commands[i]);
        i = i + 1;
    }
    proof {
        assert(ctx.commands@.take(ctx.commands@.len() as int) =~= ctx.commands@);
    }
    let violations = shadow.final_state_divergences(ctx.world);
    let mut detail = String::new();
    push_decimal(&mut detail, violations as u64);
    push_str(&mut detail, " truth domains diverge from the shadow final state");
    OracleVerdict { name: "shadow_final_state", pass: violations == 0, detail }
}

// ---------------------------------------------------------------------------
// The suite
// ---------------------------------------------------------------------------

/// All ten oracles, in order.
pub fn run_all(ctx: &OracleCtx) -> (r: [OracleVerdict; ORACLE_COUNT])
    requires
        ctx_ready(*ctx),
        ctx.log@.len() <= usize::MAX / 2,
    ensures
        r@[0].name@ == "stamina_in_bounds"@,
        r@[0].pass == forall|i: int|
            0 <= i < ctx.world@.characters.records.len() ==> (#[trigger] ctx.world@.characters.records[i]).points
                <= 100,
        r@[0].pass,
        r@[0].detail@ == "all stamina within 0..=100"@,
        r@[1].name@ == "mass_conserved"@,
        r@[1].pass == mass_conserved_pass(*ctx),
        r@[1].detail@ == kind_detail(
            ResourceKind::Fodder,
            total_of_kind(ctx.world@.economy, ResourceKind::Fodder) as u64,
            ctx.baseline_by_kind@[0]@,
        ) + " "@ + kind_detail(
            ResourceKind::Food,
            total_of_kind(ctx.world@.economy, ResourceKind::Food) as u64,
            ctx.baseline_by_kind@[1]@,
        ) + " "@ + kind_detail(
            ResourceKind::Timber,
            total_of_kind(ctx.world@.economy, ResourceKind::Timber) as u64,
            ctx.baseline_by_kind@[2]@,
        ) + " total="@ + dec_chars(total_mass_spec(ctx.world@.economy) as nat) + "g/"@ + dec_chars(
            (ctx.baseline_by_kind@[0]@ + ctx.baseline_by_kind@[1]@ + ctx.baseline_by_kind@[2]@) as nat,
        ) + "g"@,
        r@[2].name@ == "mass_authority_gate"@,
        r@[2].pass == authority_pass(ctx.log@),
        r@[2].detail@ == dec_chars(count_where(ctx.log@, |x: Receipt| unwitnessed_extraction(x)))
            + " unwitnessed extractions, "@ + dec_chars(
            count_where(ctx.log@, |x: Receipt| unconsented_transfer(x)),
        ) + " unconsented transfers"@,
        r@[3].name@ == "exhausted_gate"@,
        r@[3].pass == (count_where(ctx.log@, |x: Receipt| exhausted_extraction(x)) == 0),
        r@[3].detail@ == dec_chars(count_where(ctx.log@, |x: Receipt| exhausted_extraction(x)))
            + " exhausted or band-less receipts drained a site"@,
        r@[4].name@ == "closed_reasons"@,
        r@[4].pass == (count_where(ctx.log@, |x: Receipt| !codes_round_trip_spec(x.outcome)) == 0),
        r@[4].pass,
        r@[4].detail@ == dec_chars(count_where(ctx.log@, |x: Receipt| !codes_round_trip_spec(x.outcome)))
            + " receipts with unclosed reason codes"@,
        r@[5].name@ == "cell_bounds"@,
        r@[5].pass == (count_where(ctx.log@, |x: Receipt| outside_cell(x)) == 0),
        r@[5].detail@ == dec_chars(count_where(ctx.log@, |x: Receipt| outside_cell(x)))
            + " receipts outside the 4x4 cell"@,
        r@[6].name@ == "replay_determinism"@,
        r@[6].pass == (replay_states_match(*ctx) && replay_hashes_match(*ctx) && replay_lines_match(*ctx)),
        r@[6].detail@ == "states_match="@ + bool_chars(replay_states_match(*ctx)) + " hashes_match="@
            + bool_chars(replay_hashes_match(*ctx)) + " receipts_match="@ + bool_chars(
            replay_lines_match(*ctx),
        ),
        r@[7].name@ == "refusal_zero_mutation"@,
        r@[7].pass == (chain_violations(ctx.log@, world_hash_spec(ctx.fixture@), ctx.log@.len() as int) == 0),
        r@[7].detail@ == dec_chars(chain_violations(ctx.log@, world_hash_spec(ctx.fixture@), ctx.log@.len() as int))
            + " hash-chain or mutation violations"@,
        r@[8].name@ == "shadow_expectation"@,
        r@[8].pass == (shadow_violations(*ctx) == 0),
        r@[8].detail@ == dec_chars(shadow_violations(*ctx)) + " receipts diverge from the shadow evaluator"@,
        r@[9].name@ == "shadow_final_state"@,
        r@[9].pass == (divergences(shadow_run_spec(shadow_of_world(ctx.fixture@), ctx.commands@).0, ctx.world@)
            == 0),
        r@[9].detail@ == dec_chars(
            divergences(shadow_run_spec(shadow_of_world(ctx.fixture@), ctx.commands@).0, ctx.world@),
        ) + " truth domains diverge from the shadow final state"@,
{
    let v1 = stamina_in_bounds(ctx);
    let v2 = mass_conserved(ctx);
    let v3 = mass_authority_gate(ctx);
    let v4 = exhausted_gate(ctx);
    let v5 = closed_reasons(ctx);
    let v6 = cell_bounds(ctx);
    let v7 = replay_determinism(ctx);
    let v8 = refusal_zero_mutation(ctx);
    let v9 = shadow_expectation(ctx);
    let v10 = shadow_final_state(ctx);
    [v1, v2, v3, v4, v5, v6, v7, v8, v9, v10]
}

} // verus!
