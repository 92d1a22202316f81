//! The winter-crisis scene: one household, one winter, three defensible
//! plans, run through the same boundary and the same ten oracles as every
//! other trial. The scene adds no rule — no verb, no kind, no value, no
//! oracle. It is a fixture and three command sequences.
//!
//! `WINTER_NEED` and the shortfall are scene arithmetic, not truth: the
//! truth layer has no concept of a need, and nothing consumes anything.
//! The shortfall is a projection over canonical state that nothing reads
//! back.

use vstd::prelude::*;

use crate::boundary::{room_for, run_commands, run_spec, settled};
use crate::command::{Command, GatherCommand, GiveCommand, WitnessCommand};
use crate::economy::{grams_weight, grams_weight_of, lemma_kinds_sum_to_total, seeded_mass, total_mass_spec};
use crate::receipt::Receipt;
use crate::sums::{lemma_sum_nonneg, lemma_sum_prefix_bound, lemma_sum_take_step, seq_sum};
use crate::vocab::{
    kind_at, kind_index, lemma_mass_eq, lemma_mass_from, mass_from, CharacterId, ClaimId, InfraTier,
    MassGrams, ResourceKind, SiteId, Stamina, KIND_COUNT,
};
use crate::world::{fresh_body, fresh_claim, fresh_site, fresh_world, World, WorldModel};

verus! {

/// What the household must hold to reach spring, indexed by
/// `ResourceKind::index`. Scene arithmetic — mechanical example numbers,
/// not balance, and not a rule the world enforces.
pub const WINTER_NEED: [u64; KIND_COUNT] = [6_000, 2_500, 1_200];

/// What every seeded scene world is: settled, with every owner counter at
/// zero.
pub open spec fn fresh_fixture(w: WorldModel) -> bool {
    &&& settled(w)
    &&& w.characters.revision == 0
    &&& w.economy.revision == 0
    &&& w.social.revision == 0
}

/// The winter scene's state before any plan runs.
pub open spec fn scene_world() -> WorldModel {
    fresh_world(
        seq![fresh_body(1, 70), fresh_body(2, 60), fresh_body(3, 45), fresh_body(4, 25)],
        seq![
            fresh_site(1, InfraTier::Established, ResourceKind::Fodder, 4_000),
            fresh_site(2, InfraTier::Crude, ResourceKind::Timber, 2_500),
            fresh_site(3, InfraTier::Crude, ResourceKind::Food, 1_800),
        ],
        seq![
            fresh_claim(1, 1, 1, true),
            fresh_claim(2, 2, 1, true),
            fresh_claim(3, 3, 1, true),
            fresh_claim(4, 4, 1, false),
            fresh_claim(5, 1, 2, true),
            fresh_claim(6, 2, 2, true),
            fresh_claim(7, 3, 3, true),
            fresh_claim(8, 4, 3, true),
        ],
    )
}

/// A hayfield already cut over, a stand of scrub wood, a shore, and four
/// people of unequal strength. The boy's claim on the hayfield is
/// unwitnessed, so legitimacy costs someone stamina before he may work at
/// all.
pub fn fixture() -> (r: World)
    ensures
        r@ == scene_world(),
        fresh_fixture(r@),
        total_mass_spec(r@.economy) == 8_300,
{
    let characters = [
        (CharacterId(1), Stamina::new(70).unwrap()),
        (CharacterId(2), Stamina::new(60).unwrap()),
        (CharacterId(3), Stamina::new(45).unwrap()),
        (CharacterId(4), Stamina::new(25).unwrap()),
    ];
    let sites = [
        (SiteId(1), InfraTier::Established, ResourceKind::Fodder, MassGrams::new(4_000)),
        (SiteId(2), InfraTier::Crude, ResourceKind::Timber, MassGrams::new(2_500)),
        (SiteId(3), InfraTier::Crude, ResourceKind::Food, MassGrams::new(1_800)),
    ];
    let claims = [
        (ClaimId(1), CharacterId(1), SiteId(1), true),
        (ClaimId(2), CharacterId(2), SiteId(1), true),
        (ClaimId(3), CharacterId(3), SiteId(1), true),
        (ClaimId(4), CharacterId(4), SiteId(1), false),
        (ClaimId(5), CharacterId(1), SiteId(2), true),
        (ClaimId(6), CharacterId(2), SiteId(2), true),
        (ClaimId(7), CharacterId(3), SiteId(3), true),
        (ClaimId(8), CharacterId(4), SiteId(3), true),
    ];
    proof {
        reveal_with_fuel(seq_sum, 4);
        assert(sites@.drop_last().drop_last().drop_last() =~= Seq::<(SiteId, InfraTier, ResourceKind, MassGrams)>::empty());
    }
    let r = World::seed(characters, sites, claims);
    proof {
        let want = scene_world();
        assert(r@.characters.records =~= want.characters.records);
        assert(r@.economy.sites =~= want.economy.sites);
        assert(r@.economy.holdings =~= want.economy.holdings);
        assert(r@.economy.holding_revisions =~= want.economy.holding_revisions);
        assert(r@.social.records =~= want.social.records);
    }
    r
}

fn gather(actor: u64, claim: u64, site: u64) -> (r: Command)
    ensures
        r == Command::Gather(GatherCommand { actor: CharacterId(actor), claim: ClaimId(claim), site: SiteId(site) }),
{
    Command::Gather(GatherCommand { actor: CharacterId(actor), claim: ClaimId(claim), site: SiteId(site) })
}

fn witness(attester: u64, claim: u64) -> (r: Command)
    ensures
        r == Command::Witness(WitnessCommand { witness: CharacterId(attester), claim: ClaimId(claim) }),
{
    Command::Witness(WitnessCommand { witness: CharacterId(attester), claim: ClaimId(claim) })
}

pub open spec fn give_spec(giver: u64, to: u64, kind: ResourceKind, grams: u64, attested: Option<u64>) -> Command {
    Command::Give(
        GiveCommand {
            giver: CharacterId(giver),
            recipient: CharacterId(to),
            kind,
            grams: mass_from(grams),
            witness: match attested {
                Some(x) => Some(CharacterId(x)),
                None => None,
            },
        },
    )
}

fn give(giver: u64, to: u64, kind: ResourceKind, grams: u64, attested: Option<u64>) -> (r: Command)
    ensures
        r == give_spec(giver, to, kind, grams, attested),
{
    let mass = MassGrams::new(grams);
    proof {
        lemma_mass_from(grams);
        lemma_mass_eq(mass, mass_from(grams));
    }
    Command::Give(
        GiveCommand {
            giver: CharacterId(giver),
            recipient: CharacterId(to),
            kind,
            grams: mass,
            witness: match attested {
                Some(x) => Some(CharacterId(x)),
                None => None,
            },
        },
    )
}

pub open spec fn gather_spec(actor: u64, claim: u64, site: u64) -> Command {
    Command::Gather(GatherCommand { actor: CharacterId(actor), claim: ClaimId(claim), site: SiteId(site) })
}

pub open spec fn witness_spec(attester: u64, claim: u64) -> Command {
    Command::Witness(WitnessCommand { witness: CharacterId(attester), claim: ClaimId(claim) })
}

/// One plan for the winter: its id, name, intent, and commands.
pub struct Plan {
    pub id: &'static str,
    pub name: &'static str,
    pub intent: &'static str,
    pub commands: Vec<Command>,
}

/// Plan A, "feed the cattle": every hand to the hayfield, including the
/// boy's — which first costs the head the stamina to attest his claim.
pub open spec fn plan_a_commands() -> Seq<Command> {
    seq![
        gather_spec(1, 1, 1),
        gather_spec(2, 2, 1),
        gather_spec(3, 3, 1),
        gather_spec(4, 4, 1),
        witness_spec(1, 4),
        gather_spec(4, 4, 1),
        gather_spec(1, 1, 1),
        gather_spec(2, 2, 1),
        give_spec(4, 1, ResourceKind::Fodder, 400, Some(2)),
    ]
}

/// Plan B, "save the roof": two to the wood and two to the hay.
pub open spec fn plan_b_commands() -> Seq<Command> {
    seq![
        gather_spec(1, 5, 2),
        gather_spec(2, 6, 2),
        gather_spec(3, 3, 1),
        witness_spec(3, 4),
        gather_spec(4, 4, 1),
        gather_spec(1, 5, 2),
        gather_spec(3, 3, 1),
        give_spec(1, 2, ResourceKind::Timber, 1_600, Some(3)),
    ]
}

/// Plan C, "feed the people": the shore and the hayfield.
pub open spec fn plan_c_commands() -> Seq<Command> {
    seq![
        gather_spec(3, 7, 3),
        gather_spec(4, 8, 3),
        gather_spec(1, 1, 1),
        gather_spec(2, 2, 1),
        gather_spec(3, 7, 3),
        gather_spec(4, 8, 3),
        give_spec(4, 1, ResourceKind::Food, 400, Some(3)),
    ]
}

/// The three plans. Each is a defensible answer to the same winter, and
/// none of them is right — the world holds less fodder and less food than
/// the household needs, so every plan is a triage.
pub fn plans() -> (r: Vec<Plan>)
    ensures
        r@.len() == 3,
        r@[0].id@ == "A"@ && r@[0].commands@ == plan_a_commands(),
        r@[0].name@ == "feed the cattle"@,
        r@[0].intent@ == "every hand to the hayfield, including the boy's — which first costs the head the stamina to attest his claim"@,
        r@[1].id@ == "B"@ && r@[1].commands@ == plan_b_commands(),
        r@[1].name@ == "save the roof"@,
        r@[1].intent@ == "two to the wood and two to the hay; the roof closes, and the cattle take the loss"@,
        r@[2].id@ == "C"@ && r@[2].commands@ == plan_c_commands(),
        r@[2].name@ == "feed the people"@,
        r@[2].intent@ == "the shore and the hayfield; the household eats, the roof stays open, the cattle take the loss"@,
{
    let a = vec![
        gather(1, 1, 1),
        gather(2, 2, 1),
        gather(3, 3, 1),
        gather(4, 4, 1),  // refused: the boy's claim is unwitnessed
        witness(1, 4),  // the head pays for his legitimacy
        gather(4, 4, 1),  // partial: the field is nearly bare
        gather(1, 1, 1),  // refused: site empty
        gather(2, 2, 1),  // refused: site empty
        give(4, 1, ResourceKind::Fodder, 400, Some(2)),
    ];
    let b = vec![
        gather(1, 5, 2),
        gather(2, 6, 2),
        gather(3, 3, 1),
        witness(3, 4),  // the tiring woman pays this time
        gather(4, 4, 1),
        gather(1, 5, 2),
        gather(3, 3, 1),
        give(1, 2, ResourceKind::Timber, 1_600, Some(3)),
    ];
    let c = vec![
        gather(3, 7, 3),
        gather(4, 8, 3),
        gather(1, 1, 1),
        gather(2, 2, 1),
        gather(3, 7, 3),
        gather(4, 8, 3),  // refused: 10 points cannot cover a 15-point spend
        give(4, 1, ResourceKind::Food, 400, Some(3)),
    ];
    proof {
        assert(a@ =~= plan_a_commands());
        assert(b@ =~= plan_b_commands());
        assert(c@ =~= plan_c_commands());
    }
    vec![
        Plan {
            id: "A",
            name: "feed the cattle",
            intent: "every hand to the hayfield, including the boy's — which first costs the head the stamina to attest his claim",
            commands: a,
        },
        Plan {
            id: "B",
            name: "save the roof",
            intent: "two to the wood and two to the hay; the roof closes, and the cattle take the loss",
            commands: b,
        },
        Plan {
            id: "C",
            name: "feed the people",
            intent: "the shore and the hayfield; the household eats, the roof stays open, the cattle take the loss",
            commands: c,
        },
    ]
}

/// The household's holdings of one kind: the sum over its people.
pub open spec fn held_of_kind(w: WorldModel, k: ResourceKind) -> int {
    seq_sum(w.economy.holdings, grams_weight_of(k))
}

/// Everything the household holds, by kind. A projection: it reads
/// canonical state and returns numbers, and nothing reads it back.
pub fn household_totals(world: &World) -> (r: [u64; KIND_COUNT])
    requires
        settled(world@),
    ensures
        forall|k: ResourceKind| #[trigger] r@[kind_index(k)] == held_of_kind(world@, k),
{
    let ghost m = world@.economy;
    proof {
        lemma_kinds_sum_to_total(m);
        lemma_sum_nonneg(m.sites, crate::economy::stock_weight_of(ResourceKind::Fodder));
        lemma_sum_nonneg(m.sites, crate::economy::stock_weight_of(ResourceKind::Food));
        lemma_sum_nonneg(m.sites, crate::economy::stock_weight_of(ResourceKind::Timber));
        crate::economy::lemma_weights_nonneg(ResourceKind::Fodder);
        crate::economy::lemma_weights_nonneg(ResourceKind::Food);
        crate::economy::lemma_weights_nonneg(ResourceKind::Timber);
    }
    let held = world.economy.holdings_iter();
    let mut totals: [u64; KIND_COUNT] = [0, 0, 0];
    let mut i: usize = 0;
    while i < held.len()
        invariant
            i <= held@.len(),
            held@.len() == m.holdings.len(),
            m == world@.economy,
            settled(world@),
            forall|k: ResourceKind| 0 <= #[trigger] crate::economy::total_of_kind(m, k) <= total_mass_spec(m),
            forall|k: ResourceKind| #[trigger] seq_sum(m.sites, crate::economy::stock_weight_of(k)) >= 0,
            forall|k: ResourceKind, x: crate::economy::HoldingRecord| #[trigger] grams_weight_of(k)(x) >= 0,
            forall|j: int|
                0 <= j < held@.len() ==> {
                    let h = m.holdings[j];
                    &&& (#[trigger] held@[j]).0.0 == h.id
                    &&& held@[j].1 == h.kind
                    &&& held@[j].2@ == h.grams
                },
            forall|k: ResourceKind| #[trigger] totals@[kind_index(k)] == seq_sum(m.holdings.take(i as int), grams_weight_of(k)),
        decreases held@.len() - i,
    {
        let (_, kind, grams) = held[i];
        proof {
            assert forall|k: ResourceKind| #[trigger] seq_sum(m.holdings.take(i as int + 1), grams_weight_of(k))
                == seq_sum(m.holdings.take(i as int), grams_weight_of(k)) + grams_weight_of(k)(m.holdings[i as int]) by {
                lemma_sum_take_step(m.holdings, i as int, grams_weight_of(k));
            }
            lemma_sum_prefix_bound(m.holdings, i as int + 1, grams_weight_of(kind));
            assert(grams_weight_of(kind)(m.holdings[i as int]) == grams@);
            assert(crate::economy::total_of_kind(m, kind) == seq_sum(m.sites, crate::economy::stock_weight_of(kind))
                + seq_sum(m.holdings, grams_weight_of(kind)));
            assert(seq_sum(m.sites, crate::economy::stock_weight_of(kind)) >= 0);
            assert(totals@[kind_index(kind)] + grams@ <= u64::MAX);
        }
        let idx = kind.index();
        totals[idx] = totals[idx] + grams.grams();
        proof {
            assert forall|k: ResourceKind| #[trigger] totals@[kind_index(k)] == seq_sum(m.holdings.take(i as int + 1), grams_weight_of(k)) by {
                if k != kind {
                    assert(kind_index(k) != kind_index(kind));
                    assert(grams_weight_of(k)(m.holdings[i as int]) == 0);
                }
            }
        }
        i = i + 1;
    }
    proof {
        assert(m.holdings.take(held@.len() as int) =~= m.holdings);
    }
    totals
}

/// Need minus held for one kind, floored at zero.
pub open spec fn short_of(w: WorldModel, k: ResourceKind) -> int {
    let need = WINTER_NEED[kind_index(k)];
    let held = held_of_kind(w, k);
    if held < need {
        need - held
    } else {
        0
    }
}

/// Need minus held, floored at zero. Scene arithmetic, never a rule.
pub fn shortfall(world: &World) -> (r: [u64; KIND_COUNT])
    requires
        settled(world@),
    ensures
        forall|k: ResourceKind| #[trigger] r@[kind_index(k)] == short_of(world@, k),
{
    let held = household_totals(world);
    let mut short: [u64; KIND_COUNT] = [0, 0, 0];
    let kinds = ResourceKind::all();
    let mut i: usize = 0;
    while i < 3
        invariant
            i <= 3,
            forall|j: int| 0 <= j < 3 ==> #[trigger] kinds@[j] == kind_at(j),
            forall|k: ResourceKind| #[trigger] held@[kind_index(k)] == held_of_kind(world@, k),
            forall|j: int| 0 <= j < i ==> #[trigger] short@[j] == short_of(world@, kind_at(j)),
        decreases 3 - i,
    {
        let kind = kinds[i];
        let idx = kind.index();
        let need = WINTER_NEED[idx];
        short[idx] = if held[idx] < need {
            need - held[idx]
        } else {
            0
        };
        proof {
            assert(kind_index(kind_at(i as int)) == i);
        }
        i = i + 1;
    }
    proof {
        assert forall|k: ResourceKind| #[trigger] short@[kind_index(k)] == short_of(world@, k) by {
            match k {
                ResourceKind::Fodder => assert(kind_at(0) == k),
                ResourceKind::Food => assert(kind_at(1) == k),
                ResourceKind::Timber => assert(kind_at(2) == k),
            }
        }
    }
    short
}

/// One plan's run: the final world, the receipts, and the commands.
pub struct PlanRun {
    pub world: World,
    pub log: Vec<Receipt>,
    pub commands: Vec<Command>,
}

fn copy_commands(v: &Vec<Command>) -> (r: Vec<Command>)
    ensures
        r@ == v@,
{
    let mut out: Vec<Command> = Vec::new();
    let mut i: usize = 0;
    while i < v.len()
        invariant
            i <= v@.len(),
            out@ == v@.take(i as int),
        decreases v@.len() - i,
    {
        out.push(v[i]);
        proof {
            assert(out@ =~= v@.take(i as int + 1));
        }
        i = i + 1;
    }
    proof {
        assert(v@.take(v@.len() as int) =~= v@);
    }
    out
}

/// Runs one plan from the scene's fixture: the plan's commands in order,
/// the i-th (from zero) under sequence number i + 1.
pub fn run_plan(plan: &Plan) -> (r: PlanRun)
    requires
        plan.commands@.len() < 0x7fff_ffff_ffff_ffff,
    ensures
        r.commands@ == plan.commands@,
        settled(r.world@),
        (r.world@, r.log@) == run_spec(scene_world(), plan.commands@),
{
    let mut world = fixture();
    let ghost w0 = world@;
    let log = run_commands(&mut world, plan.commands.as_slice());
    PlanRun { world, log, commands: copy_commands(&plan.commands) }
}

} // verus!
