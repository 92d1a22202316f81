//! Commands and their canonical bytes — the observation point at which
//! foreign input has preserved command meaning.

use vstd::prelude::*;

use crate::fnv::{be8, push_be8};
use crate::grammar::{ascii_bytes, push_ascii};
use crate::vocab::{kind_index, CharacterId, ClaimId, MassGrams, ResourceKind, SiteId};

verus! {

#[derive(Debug, Clone, Copy)]
pub struct GatherCommand {
    pub actor: CharacterId,
    pub claim: ClaimId,
    pub site: SiteId,
}

#[derive(Debug, Clone, Copy)]
pub struct WitnessCommand {
    pub witness: CharacterId,
    pub claim: ClaimId,
}

/// An attributed transfer: the command names its source, and no accepted
/// transfer debits a holding other than that named source. The named
/// witness, if any, is recorded on the receipt by identity and pays
/// nothing.
#[derive(Debug, Clone, Copy)]
pub struct GiveCommand {
    pub giver: CharacterId,
    pub recipient: CharacterId,
    pub kind: ResourceKind,
    pub grams: MassGrams,
    pub witness: Option<CharacterId>,
}

#[derive(Debug, Clone, Copy)]
pub enum Command {
    Gather(GatherCommand),
    Witness(WitnessCommand),
    Give(GiveCommand),
}

/// The canonical bytes of a command: the verb code, then each field in
/// declared order, integers big-endian; an optional witness is a presence
/// byte followed, when present, by the id.
pub open spec fn command_bytes(c: Command) -> Seq<u8> {
    match c {
        Command::Gather(g) => ascii_bytes("gather"@) + be8(g.actor.0) + be8(g.claim.0) + be8(g.site.0),
        Command::Witness(w) => ascii_bytes("witness"@) + be8(w.witness.0) + be8(w.claim.0),
        Command::Give(g) => ascii_bytes("give"@) + be8(g.giver.0) + be8(g.recipient.0) + seq![
            kind_index(g.kind) as u8,
        ] + be8(g.grams@) + match g.witness {
            Some(w) => seq![1u8] + be8(w.0),
            None => seq![0u8],
        },
    }
}

impl Command {
    /// The language-seam observation point: foreign input has preserved
    /// command meaning only once it produces these bytes.
    pub fn canonical_bytes(&self) -> (r: Vec<u8>)
        ensures
            r@ == command_bytes(*self),
    {
        let mut bytes: Vec<u8> = Vec::new();
        match self {
            Command::Gather(gather) => {
                push_ascii(&mut bytes, "gather");
                push_be8(&mut bytes, gather.actor.0);
                push_be8(&mut bytes, gather.claim.0);
                push_be8(&mut bytes, gather.site.0);
            },
            Command::Witness(witness) => {
                push_ascii(&mut bytes, "witness");
                push_be8(&mut bytes, witness.witness.0);
                push_be8(&mut bytes, witness.claim.0);
            },
            Command::Give(give) => {
                push_ascii(&mut bytes, "give");
                push_be8(&mut bytes, give.giver.0);
                push_be8(&mut bytes, give.recipient.0);
                bytes.push(give.kind.index() as u8);
                push_be8(&mut bytes, give.grams.grams());
                // Presence byte first: an absent witness and a witness
                // whose id happens to be zero must not share an encoding.
                match give.witness {
                    Some(witness) => {
                        bytes.push(1);
                        push_be8(&mut bytes, witness.0);
                    },
                    None => bytes.push(0),
                }
            },
        }
        assert(bytes@ =~= command_bytes(*self));
        bytes
    }
}

/// Eight big-endian bytes determine the number they spell.
pub proof fn lemma_be8_injective(x: u64, y: u64)
    requires
        be8(x) == be8(y),
    ensures
        x == y,
{
    let bx = be8(x);
    let by = be8(y);
    assert(bx[0] == by[0] && bx[1] == by[1] && bx[2] == by[2] && bx[3] == by[3]);
    assert(bx[4] == by[4] && bx[5] == by[5] && bx[6] == by[6] && bx[7] == by[7]);
    assert(x == y) by (bit_vector)
        requires
            ((x >> 56u64) & 0xffu64) as u8 == ((y >> 56u64) & 0xffu64) as u8,
            ((x >> 48u64) & 0xffu64) as u8 == ((y >> 48u64) & 0xffu64) as u8,
            ((x >> 40u64) & 0xffu64) as u8 == ((y >> 40u64) & 0xffu64) as u8,
            ((x >> 32u64) & 0xffu64) as u8 == ((y >> 32u64) & 0xffu64) as u8,
            ((x >> 24u64) & 0xffu64) as u8 == ((y >> 24u64) & 0xffu64) as u8,
            ((x >> 16u64) & 0xffu64) as u8 == ((y >> 16u64) & 0xffu64) as u8,
            ((x >> 8u64) & 0xffu64) as u8 == ((y >> 8u64) & 0xffu64) as u8,
            (x & 0xffu64) as u8 == (y & 0xffu64) as u8,
    ;
}

/// The eight bytes at `at` of `bytes`, read back as the number they spell.
proof fn lemma_be8_at(bytes: Seq<u8>, other: Seq<u8>, at: int, x: u64, y: u64)
    requires
        bytes == other,
        0 <= at,
        at + 8 <= bytes.len(),
        bytes.subrange(at, at + 8) == be8(x),
        other.subrange(at, at + 8) == be8(y),
    ensures
        x == y,
{
    lemma_be8_injective(x, y);
}

/// Different commands never share canonical bytes: the verb code, every
/// id, the kind, the amount and the witness (present or absent, whatever
/// its id) are all recoverable from the bytes.
pub proof fn law_command_bytes_are_injective(a: Command, b: Command)
    requires
        command_bytes(a) == command_bytes(b),
    ensures
        a == b,
{
    reveal_strlit("gather");
    reveal_strlit("witness");
    reveal_strlit("give");
    let x = command_bytes(a);
    let y = command_bytes(b);
    let g = ascii_bytes("gather"@);
    let w = ascii_bytes("witness"@);
    let v = ascii_bytes("give"@);
    assert(g[0] == 103u8 && g[1] == 97u8);
    assert(w[0] == 119u8);
    assert(v[0] == 103u8 && v[1] == 105u8);
    match (a, b) {
        (Command::Gather(p), Command::Gather(q)) => {
            assert(x.subrange(6, 14) =~= be8(p.actor.0));
            assert(y.subrange(6, 14) =~= be8(q.actor.0));
            assert(x.subrange(14, 22) =~= be8(p.claim.0));
            assert(y.subrange(14, 22) =~= be8(q.claim.0));
            assert(x.subrange(22, 30) =~= be8(p.site.0));
            assert(y.subrange(22, 30) =~= be8(q.site.0));
            lemma_be8_at(x, y, 6, p.actor.0, q.actor.0);
            lemma_be8_at(x, y, 14, p.claim.0, q.claim.0);
            lemma_be8_at(x, y, 22, p.site.0, q.site.0);
        },
        (Command::Witness(p), Command::Witness(q)) => {
            assert(x.subrange(7, 15) =~= be8(p.witness.0));
            assert(y.subrange(7, 15) =~= be8(q.witness.0));
            assert(x.subrange(15, 23) =~= be8(p.claim.0));
            assert(y.subrange(15, 23) =~= be8(q.claim.0));
            lemma_be8_at(x, y, 7, p.witness.0, q.witness.0);
            lemma_be8_at(x, y, 15, p.claim.0, q.claim.0);
        },
        (Command::Give(p), Command::Give(q)) => {
            assert(x.subrange(4, 12) =~= be8(p.giver.0));
            assert(y.subrange(4, 12) =~= be8(q.giver.0));
            assert(x.subrange(12, 20) =~= be8(p.recipient.0));
            assert(y.subrange(12, 20) =~= be8(q.recipient.0));
            assert(x[20] == kind_index(p.kind) as u8);
            assert(y[20] == kind_index(q.kind) as u8);
            assert(x.subrange(21, 29) =~= be8(p.grams@));
            assert(y.subrange(21, 29) =~= be8(q.grams@));
            lemma_be8_at(x, y, 4, p.giver.0, q.giver.0);
            lemma_be8_at(x, y, 12, p.recipient.0, q.recipient.0);
            lemma_be8_at(x, y, 21, p.grams@, q.grams@);
            assert(p.kind == q.kind);
            crate::vocab::lemma_mass_eq(p.grams, q.grams);
            match (p.witness, q.witness) {
                (Some(c), Some(d)) => {
                    assert(x.subrange(30, 38) =~= be8(c.0));
                    assert(y.subrange(30, 38) =~= be8(d.0));
                    lemma_be8_at(x, y, 30, c.0, d.0);
                },
                (Some(c), None) => {
                    assert(x.len() != y.len());
                },
                (None, Some(d)) => {
                    assert(x.len() != y.len());
                },
                (None, None) => {},
            }
        },
        (Command::Gather(_), _) => {
            assert(x[0] != y[0] || x[1] != y[1]);
        },
        (Command::Witness(_), _) => {
            assert(x[0] != y[0]);
        },
        (Command::Give(_), _) => {
            assert(x[0] != y[0] || x[1] != y[1]);
        },
    }
}

} // verus!
