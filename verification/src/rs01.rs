//! The RS01 trace: a dedicated coherent world and three player commands.
//!
//! The trace uses two characters because the grammar forces witnessing to
//! be a second person's act: the holder cannot witness their own claim,
//! and only the holder may gather. All fixture numbers are mechanical
//! examples.

use vstd::prelude::*;

use crate::command::{Command, GatherCommand, WitnessCommand};
use crate::winter::fresh_fixture;
use crate::economy::total_mass_spec;
use crate::vocab::{CharacterId, ClaimId, InfraTier, MassGrams, ResourceKind, SiteId, Stamina};
use crate::world::{fresh_body, fresh_claim, fresh_site, fresh_world, World, WorldModel};

verus! {

/// The holder and gatherer (a character id).
pub const RS01_HOLDER: u64 = 1;

/// The witness — the second person the grammar requires (a character id).
pub const RS01_WITNESS: u64 = 2;

/// The holder's claim on the site (a claim id).
pub const RS01_CLAIM: u64 = 1;

/// The one site (a site id).
pub const RS01_SITE: u64 = 1;

/// One equal projection unit of turf: every displayed block represents
/// exactly this mass, and the fixture keeps all stocks and yields
/// divisible by it.
pub const TURF_BLOCK_GRAMS: u64 = 200;

/// The single-actor arc's state: the holder and the witness, one
/// established fodder site, and the holder's claim on it, unwitnessed.
pub open spec fn rs01_world() -> WorldModel {
    fresh_world(
        seq![fresh_body(RS01_HOLDER, 65), fresh_body(RS01_WITNESS, 65)],
        seq![fresh_site(RS01_SITE, InfraTier::Established, ResourceKind::Fodder, 2000)],
        seq![fresh_claim(RS01_CLAIM, RS01_HOLDER, RS01_SITE, false)],
    )
}

/// Two rested people, one established site, and one unwitnessed claim.
pub fn rs01_fixture() -> (r: World)
    ensures
        r@ == rs01_world(),
        fresh_fixture(r@),
        total_mass_spec(r@.economy) == 2_000,
{
    let characters = [
        (CharacterId(RS01_HOLDER), Stamina::new(65).unwrap()),
        (CharacterId(RS01_WITNESS), Stamina::new(65).unwrap()),
    ];
    let sites = [(SiteId(RS01_SITE), InfraTier::Established, ResourceKind::Fodder, MassGrams::new(2000))];
    let claims = [(ClaimId(RS01_CLAIM), CharacterId(RS01_HOLDER), SiteId(RS01_SITE), false)];
    proof {
        reveal_with_fuel(crate::sums::seq_sum, 2);
        assert(sites@.drop_last() =~= Seq::<(SiteId, InfraTier, ResourceKind, MassGrams)>::empty());
    }
    let r = World::seed(characters, sites, claims);
    proof {
        let want = rs01_world();
        assert(r@.characters.records =~= want.characters.records);
        assert(r@.economy.sites =~= want.economy.sites);
        assert(r@.economy.holdings =~= want.economy.holdings);
        assert(r@.economy.holding_revisions =~= want.economy.holding_revisions);
        assert(r@.social.records =~= want.social.records);
    }
    r
}

/// The three player-submitted commands, in required-flow order: the
/// holder is refused, the witness attests, the holder gathers.
pub fn rs01_commands() -> (r: [Command; 3])
    ensures
        r@ == seq![
            Command::Gather(GatherCommand { actor: CharacterId(RS01_HOLDER), claim: ClaimId(RS01_CLAIM), site: SiteId(RS01_SITE) }),
            Command::Witness(WitnessCommand { witness: CharacterId(RS01_WITNESS), claim: ClaimId(RS01_CLAIM) }),
            Command::Gather(GatherCommand { actor: CharacterId(RS01_HOLDER), claim: ClaimId(RS01_CLAIM), site: SiteId(RS01_SITE) }),
        ],
{
    let r = [
        Command::Gather(GatherCommand { actor: CharacterId(RS01_HOLDER), claim: ClaimId(RS01_CLAIM), site: SiteId(RS01_SITE) }),
        Command::Witness(WitnessCommand { witness: CharacterId(RS01_WITNESS), claim: ClaimId(RS01_CLAIM) }),
        Command::Gather(GatherCommand { actor: CharacterId(RS01_HOLDER), claim: ClaimId(RS01_CLAIM), site: SiteId(RS01_SITE) }),
    ];
    assert(r@ =~= seq![
        Command::Gather(GatherCommand { actor: CharacterId(RS01_HOLDER), claim: ClaimId(RS01_CLAIM), site: SiteId(RS01_SITE) }),
        Command::Witness(WitnessCommand { witness: CharacterId(RS01_WITNESS), claim: ClaimId(RS01_CLAIM) }),
        Command::Gather(GatherCommand { actor: CharacterId(RS01_HOLDER), claim: ClaimId(RS01_CLAIM), site: SiteId(RS01_SITE) }),
    ]);
    r
}

} // verus!
