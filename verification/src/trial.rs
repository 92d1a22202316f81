//! The standard trial: a mechanical-example fixture, a fixed two-verb
//! command sequence that exercises every reachable outcome in it, and the
//! identities a run of it is known by.

use vstd::prelude::*;

use crate::boundary::{
    commands_bytes, fixture_identity, receipt_chain_digest, receipts_bytes, run_commands, run_spec,
    settled,
};
use crate::command::{Command, GatherCommand, WitnessCommand};
use crate::economy::total_mass_spec;
use crate::fnv::{be8, fnv_hash};
use crate::grammar::{
    command_encoding_fingerprint, command_encoding_spec, encoding_bytes, grammar_fingerprint,
    receipt_fields_bytes, receipt_format_fingerprint,
};
use crate::oracles::{ORACLE_COUNT, ORACLE_SUITE_VERSION};
use crate::text::{dec_chars, hex_prefixed, push_decimal, push_hex, push_str};
use crate::vocab::{CharacterId, ClaimId, InfraTier, MassGrams, ResourceKind, SiteId, Stamina};
use crate::winter::{fresh_fixture, gather_spec, witness_spec};
use crate::world::{fresh_body, fresh_claim, fresh_site, fresh_world, world_hash_spec, World, WorldModel};

verus! {

/// The standard fixture's state.
pub open spec fn standard_world() -> WorldModel {
    fresh_world(
        seq![fresh_body(1, 90), fresh_body(2, 39), fresh_body(3, 5), fresh_body(4, 12)],
        seq![
            fresh_site(1, InfraTier::Established, ResourceKind::Fodder, 2000),
            fresh_site(2, InfraTier::Crude, ResourceKind::Timber, 300),
            fresh_site(3, InfraTier::Advanced, ResourceKind::Fodder, 5000),
            fresh_site(4, InfraTier::NoInfrastructure, ResourceKind::Fodder, 1000),
        ],
        seq![
            fresh_claim(1, 1, 1, true),
            fresh_claim(2, 2, 2, true),
            fresh_claim(3, 2, 1, false),
            fresh_claim(4, 3, 2, true),
            fresh_claim(5, 1, 3, true),
            fresh_claim(6, 2, 4, true),
            fresh_claim(7, 4, 4, true),
            fresh_claim(8, 4, 4, false),
            fresh_claim(9, 1, 1, false),
        ],
    )
}

/// Four characters of unequal strength, four sites of every tier, and
/// nine claims — some witnessed, some not. Mechanical examples only.
pub fn fixture() -> (r: World)
    ensures
        r@ == standard_world(),
        fresh_fixture(r@),
        total_mass_spec(r@.economy) == 8_300,
{
    let characters = [
        (CharacterId(1), Stamina::new(90).unwrap()),
        (CharacterId(2), Stamina::new(39).unwrap()),
        (CharacterId(3), Stamina::new(5).unwrap()),
        (CharacterId(4), Stamina::new(12).unwrap()),
    ];
    let sites = [
        (SiteId(1), InfraTier::Established, ResourceKind::Fodder, MassGrams::new(2000)),
        (SiteId(2), InfraTier::Crude, ResourceKind::Timber, MassGrams::new(300)),
        (SiteId(3), InfraTier::Advanced, ResourceKind::Fodder, MassGrams::new(5000)),
        (SiteId(4), InfraTier::NoInfrastructure, ResourceKind::Fodder, MassGrams::new(1000)),
    ];
    let claims = [
        (ClaimId(1), CharacterId(1), SiteId(1), true),
        (ClaimId(2), CharacterId(2), SiteId(2), true),
        (ClaimId(3), CharacterId(2), SiteId(1), false),
        (ClaimId(4), CharacterId(3), SiteId(2), true),
        (ClaimId(5), CharacterId(1), SiteId(3), true),
        (ClaimId(6), CharacterId(2), SiteId(4), true),
        (ClaimId(7), CharacterId(4), SiteId(4), true),
        (ClaimId(8), CharacterId(4), SiteId(4), false),
        (ClaimId(9), CharacterId(1), SiteId(1), false),
    ];
    proof {
        reveal_with_fuel(crate::sums::seq_sum, 5);
        assert(sites@.drop_last().drop_last().drop_last().drop_last() =~= Seq::<
            (SiteId, InfraTier, ResourceKind, MassGrams),
        >::empty());
    }
    let r = World::seed(characters, sites, claims);
    proof {
        let want = standard_world();
        assert(r@.characters.records =~= want.characters.records);
        assert(r@.economy.sites =~= want.economy.sites);
        assert(r@.economy.holdings =~= want.economy.holdings);
        assert(r@.economy.holding_revisions =~= want.economy.holding_revisions);
        assert(r@.social.records =~= want.social.records);
    }
    r
}

/// The standard command sequence.
pub open spec fn standard_commands() -> Seq<Command> {
    seq![
        gather_spec(1, 1, 1),
        gather_spec(2, 2, 2),
        gather_spec(2, 3, 1),
        gather_spec(3, 4, 2),
        gather_spec(1, 1, 1),
        gather_spec(1, 1, 1),
        gather_spec(1, 1, 2),
        gather_spec(1, 5, 3),
        gather_spec(2, 6, 4),
        gather_spec(4, 7, 4),
        witness_spec(1, 3),
        witness_spec(1, 3),
        witness_spec(2, 3),
        gather_spec(2, 3, 1),
        witness_spec(3, 8),
        witness_spec(3, 9),
    ]
}

fn gather(actor: u64, claim: u64, site: u64) -> (r: Command)
    ensures
        r == gather_spec(actor, claim, site),
{
    Command::Gather(GatherCommand { actor: CharacterId(actor), claim: ClaimId(claim), site: SiteId(site) })
}

fn witness(attester: u64, claim: u64) -> (r: Command)
    ensures
        r == witness_spec(attester, claim),
{
    Command::Witness(WitnessCommand { witness: CharacterId(attester), claim: ClaimId(claim) })
}

/// A fixed two-verb sequence that exercises accepted, partial, and every
/// reachable refusal in the fixture — including the witness verb's own
/// refusals and the interplay between the verbs (a witnessed claim
/// unlocking a gather gate, an exhausted character still allowed to
/// witness).
pub fn commands() -> (r: Vec<Command>)
    ensures
        r@ == standard_commands(),
{
    let r = vec![
        gather(1, 1, 1),  // accepted: fresh x established
        gather(2, 2, 2),  // partial: crude site runs short
        gather(2, 3, 1),  // refused: claim not witnessed
        gather(3, 4, 2),  // refused: actor exhausted
        gather(1, 1, 1),  // partial: site nearly depleted
        gather(1, 1, 1),  // refused: site empty
        gather(1, 1, 2),  // refused: claim/site mismatch
        gather(1, 5, 3),  // accepted: steady x advanced
        gather(2, 6, 4),  // accepted: low x no infrastructure
        gather(4, 7, 4),  // refused: 12 points cannot cover a 15-point spend
        witness(1, 3),  // accepted: C1 attests C2's claim (flat cost)
        witness(1, 3),  // refused: claim already witnessed
        witness(2, 3),  // refused: cannot witness own claim
        gather(2, 3, 1),  // refused: claim now witnessed, but gatherer exhausted
        witness(3, 8),  // accepted: an exhausted character may still witness
        witness(3, 9),  // refused: 0 points cannot cover the witness cost
    ];
    assert(r@ =~= standard_commands());
    r
}

/// `0x` and the zero-padded 16-digit hexadecimal spelling.
pub fn hex(value: u64) -> (r: String)
    ensures
        r@ == hex_prefixed(value),
{
    let mut s = String::new();
    push_hex(&mut s, value);
    s
}

/// The standard trial's identity septet, recomputed by running the trial
/// rather than hard-coded: the grammar, command-encoding and
/// receipt-format fingerprints, the fixture identity, the receipt-chain
/// digest, the final world hash, and the oracle suite.
pub fn current_identities() -> (r: [String; 7])
    ensures
        r@[0]@ == hex_prefixed(crate::grammar::grammar_fingerprint_spec()),
        r@[6]@ == "oracles="@ + dec_chars(10) + "v"@ + dec_chars(6),
        ({
            let w0 = standard_world();
            let run = run_spec(w0, standard_commands());
            &&& r@[1]@ == hex_prefixed(fnv_hash(encoding_bytes(command_encoding_spec())))
            &&& r@[2]@ == hex_prefixed(fnv_hash(receipt_fields_bytes(19)))
            &&& r@[3]@ == hex_prefixed(fnv_hash(be8(world_hash_spec(w0)) + commands_bytes(standard_commands())))
            &&& r@[4]@ == hex_prefixed(fnv_hash(receipts_bytes(run.1)))
            &&& r@[5]@ == hex_prefixed(world_hash_spec(run.0))
        }),
{
    let mut world = fixture();
    let ghost w0 = world@;
    let fixture_hash = world.hash();
    let cmds = commands();
    let log = run_commands(&mut world, cmds.as_slice());
    let mut suite = String::new();
    push_str(&mut suite, "oracles=");
    push_decimal(&mut suite, ORACLE_COUNT as u64);
    push_str(&mut suite, "v");
    push_decimal(&mut suite, ORACLE_SUITE_VERSION as u64);
    [
        hex(grammar_fingerprint()),
        hex(command_encoding_fingerprint()),
        hex(receipt_format_fingerprint()),
        hex(fixture_identity(fixture_hash, cmds.as_slice())),
        hex(receipt_chain_digest(log.as_slice())),
        hex(world.hash()),
        suite,
    ]
}

} // verus!
