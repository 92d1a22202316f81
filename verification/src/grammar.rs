//! The single active design cell (stamina band x infrastructure tier),
//! verb costs, and the three identities that name the language a run was
//! produced in: the grammar fingerprint, the canonical command encoding,
//! and the canonical receipt format.
//!
//! All table numbers are mechanical examples — not balance and not
//! historical truth.

use vstd::prelude::*;

use crate::fnv::{fnv_hash, hash_bytes, push_bytes};
use crate::text::chars_of;
use crate::vocab::{
    band_index, band_of, kind_at, kind_code, partial_code, refusal_at, refusal_code, PartialReason,
    RefusalReason, ResourceKind, Stamina,
};

verus! {

pub const CELL_ROWS: usize = 4;

pub const CELL_COLS: usize = 4;

/// Gather yield in grams by `[StaminaBand][InfraTier]`. The `Exhausted`
/// row is unreachable: validation refuses exhausted actors before the
/// table is consulted.
pub const YIELD_TABLE_GRAMS: [[u64; 4]; 4] = [
    [0, 0, 0, 0],
    [250, 400, 600, 900],
    [500, 800, 1200, 1800],
    [750, 1200, 1800, 2700],
];

/// Stamina cost of one gather by band. Verb policy — owned by the
/// boundary, never by the character owner.
pub const STAMINA_COST_BY_BAND: [u8; 4] = [0, 15, 12, 10];

/// Stamina cost of witnessing a claim: a flat cost, no band table, and no
/// exhausted gate.
pub const WITNESS_COST: u8 = 5;

/// Stamina cost of one give: a flat cost, no band table, no exhausted
/// gate.
pub const GIVE_COST: u8 = 3;

/// Separator between declared fields in a format fingerprint.
pub const FORMAT_FIELD_SEP: u8 = 0x1f;

/// The field names of the canonical receipt line, in printed order.
pub const RECEIPT_FIELDS: [&'static str; 19] = [
    "seq",
    "verb",
    "actor",
    "claim",
    "site",
    "to",
    "outcome",
    "reason",
    "claim_witnessed",
    "transfer_witness",
    "stamina_before",
    "band",
    "tier",
    "kind",
    "spent",
    "mass_g",
    "grammar",
    "world_before",
    "world",
];

pub open spec fn yield_cell(band: int, tier: int) -> u64 {
    YIELD_TABLE_GRAMS[band][tier]
}

pub open spec fn gather_cost(band: int) -> u8 {
    STAMINA_COST_BY_BAND[band]
}

/// The bytes of a character sequence, one byte per character (every code
/// in this vocabulary is ASCII).
pub open spec fn ascii_bytes(cs: Seq<char>) -> Seq<u8> {
    Seq::new(cs.len(), |i: int| cs[i] as u8)
}

/// Appends one byte per character of `s`.
pub fn push_ascii(out: &mut Vec<u8>, s: &str)
    ensures
        final(out)@ == old(out)@ + ascii_bytes(s@),
{
    let cs = chars_of(s);
    let ghost start = out@;
    let mut i: usize = 0;
    while i < cs.len()
        invariant
            cs@ == s@,
            i <= cs@.len(),
            out@ == start + ascii_bytes(cs@).take(i as int),
        decreases cs@.len() - i,
    {
        out.push(cs[i] as u8);
        proof {
            assert(ascii_bytes(cs@).take(i as int + 1) =~= ascii_bytes(cs@).take(i as int).push(
                cs@[i as int] as u8,
            ));
        }
        i = i + 1;
    }
    proof {
        assert(ascii_bytes(cs@).take(cs@.len() as int) =~= ascii_bytes(cs@));
    }
}

pub open spec fn yield_row_bytes(r: int) -> Seq<u8> {
    crate::fnv::be8(yield_cell(r, 0)) + crate::fnv::be8(yield_cell(r, 1)) + crate::fnv::be8(
        yield_cell(r, 2),
    ) + crate::fnv::be8(yield_cell(r, 3))
}

pub open spec fn refusal_codes_bytes(n: int) -> Seq<u8>
    decreases n,
{
    if n <= 0 {
        Seq::empty()
    } else {
        refusal_codes_bytes(n - 1) + ascii_bytes(refusal_code(refusal_at(n - 1)))
    }
}

/// Every declared input of the grammar, in order: the yield table
/// row-major, the gather costs, the witness and give costs, every
/// resource-kind code, the band index of every stamina value 0..=100,
/// every refusal code, and every partial code.
pub open spec fn grammar_bytes() -> Seq<u8> {
    yield_row_bytes(0) + yield_row_bytes(1) + yield_row_bytes(2) + yield_row_bytes(3) + seq![
        gather_cost(0),
        gather_cost(1),
        gather_cost(2),
        gather_cost(3),
    ] + seq![WITNESS_COST] + seq![GIVE_COST] + ascii_bytes(kind_code(ResourceKind::Fodder))
        + ascii_bytes(kind_code(ResourceKind::Food)) + ascii_bytes(kind_code(ResourceKind::Timber))
        + Seq::new(101, |p: int| band_index(band_of(p)) as u8) + refusal_codes_bytes(17) + ascii_bytes(
        partial_code(PartialReason::SiteNearlyDepleted),
    )
}

pub open spec fn grammar_fingerprint_spec() -> u64 {
    fnv_hash(grammar_bytes())
}

/// Fingerprint of the grammar that produced a receipt. Change any declared
/// input and every later receipt carries a different fingerprint.
pub fn grammar_fingerprint() -> (r: u64)
    ensures
        r == grammar_fingerprint_spec(),
{
    let mut bytes: Vec<u8> = Vec::new();
    let mut row: usize = 0;
    while row < 4
        invariant
            row <= 4,
            bytes@ == if row == 0 {
                Seq::<u8>::empty()
            } else if row == 1 {
                yield_row_bytes(0)
            } else if row == 2 {
                yield_row_bytes(0) + yield_row_bytes(1)
            } else if row == 3 {
                yield_row_bytes(0) + yield_row_bytes(1) + yield_row_bytes(2)
            } else {
                yield_row_bytes(0) + yield_row_bytes(1) + yield_row_bytes(2) + yield_row_bytes(3)
            },
        decreases 4 - row,
    {
        let cells = YIELD_TABLE_GRAMS[row];
        let ghost before = bytes@;
        crate::fnv::push_be8(&mut bytes, cells[0]);
        crate::fnv::push_be8(&mut bytes, cells[1]);
        crate::fnv::push_be8(&mut bytes, cells[2]);
        crate::fnv::push_be8(&mut bytes, cells[3]);
        proof {
            assert(bytes@ =~= before + yield_row_bytes(row as int));
        }
        row = row + 1;
    }
    let ghost after_yield = bytes@;
    let costs = STAMINA_COST_BY_BAND;
    push_bytes(&mut bytes, &costs);
    bytes.push(WITNESS_COST);
    bytes.push(GIVE_COST);
    proof {
        assert(costs@ =~= seq![gather_cost(0), gather_cost(1), gather_cost(2), gather_cost(3)]);
    }
    let ghost after_costs = bytes@;
    let kinds = ResourceKind::all();
    push_ascii(&mut bytes, kinds[0].code());
    push_ascii(&mut bytes, kinds[1].code());
    push_ascii(&mut bytes, kinds[2].code());
    let ghost after_kinds = bytes@;
    proof {
        assert(kinds@[0] == ResourceKind::Fodder);
        assert(kinds@[1] == ResourceKind::Food);
        assert(kinds@[2] == ResourceKind::Timber);
    }
    let mut points: u8 = 0;
    while points <= 100
        invariant
            points <= 101,
            bytes@ == after_kinds + Seq::new(points as nat, |p: int| band_index(band_of(p)) as u8),
        decreases 101 - points,
    {
        let stamina = Stamina::new(points);
        let b = match stamina {
            Some(s) => s.band().index() as u8,
            None => 0u8,
        };
        bytes.push(b);
        proof {
            assert(bytes@ =~= after_kinds + Seq::new(
                (points + 1) as nat,
                |p: int| band_index(band_of(p)) as u8,
            ));
        }
        points = points + 1;
    }
    let ghost after_bands = bytes@;
    let reasons = RefusalReason::all();
    let mut i: usize = 0;
    while i < 17
        invariant
            i <= 17,
            forall|j: int| 0 <= j < 17 ==> reasons@[j] == refusal_at(j),
            bytes@ == after_bands + refusal_codes_bytes(i as int),
        decreases 17 - i,
    {
        push_ascii(&mut bytes, reasons[i].code());
        proof {
            assert(bytes@ =~= after_bands + refusal_codes_bytes(i as int + 1));
        }
        i = i + 1;
    }
    let partials = PartialReason::all();
    push_ascii(&mut bytes, partials[0].code());
    proof {
        let y = yield_row_bytes(0) + yield_row_bytes(1) + yield_row_bytes(2) + yield_row_bytes(3);
        assert(after_yield == y);
        let c = seq![gather_cost(0), gather_cost(1), gather_cost(2), gather_cost(3)];
        assert(after_costs =~= y + c + seq![WITNESS_COST] + seq![GIVE_COST]);
        let k = ascii_bytes(kind_code(ResourceKind::Fodder)) + ascii_bytes(kind_code(ResourceKind::Food))
            + ascii_bytes(kind_code(ResourceKind::Timber));
        assert(after_kinds =~= after_costs + k);
        assert(bytes@ =~= grammar_bytes());
    }
    hash_bytes(&bytes)
}

/// The canonical command encoding, declared: each verb code with every
/// field it contributes to the canonical command bytes, in order, with
/// the byte width that field occupies (an optional id is width 9: one
/// presence byte plus eight).
pub open spec fn command_encoding_spec() -> Seq<(Seq<char>, Seq<(Seq<char>, u8)>)> {
    seq![
        ("gather"@, seq![("actor"@, 8u8), ("claim"@, 8u8), ("site"@, 8u8)]),
        ("witness"@, seq![("witness"@, 8u8), ("claim"@, 8u8)]),
        (
            "give"@,
            seq![
                ("giver"@, 8u8),
                ("recipient"@, 8u8),
                ("kind"@, 1u8),
                ("grams"@, 8u8),
                ("witness"@, 9u8),
            ],
        ),
    ]
}

/// The declared command encoding as values.
pub fn command_encoding() -> (r: Vec<(&'static str, Vec<(&'static str, u8)>)>)
    ensures
        r@.len() == 3,
        forall|i: int|
            0 <= i < 3 ==> {
                &&& (#[trigger] r@[i]).0@ == command_encoding_spec()[i].0
                &&& r@[i].1@.len() == command_encoding_spec()[i].1.len()
                &&& forall|j: int|
                    0 <= j < r@[i].1@.len() ==> (#[trigger] r@[i].1@[j]).0@
                        == command_encoding_spec()[i].1[j].0 && r@[i].1@[j].1
                        == command_encoding_spec()[i].1[j].1
            },
{
    let mut out: Vec<(&'static str, Vec<(&'static str, u8)>)> = Vec::new();
    out.push(("gather", vec![("actor", 8u8), ("claim", 8u8), ("site", 8u8)]));
    out.push(("witness", vec![("witness", 8u8), ("claim", 8u8)]));
    out.push(
        (
            "give",
            vec![("giver", 8u8), ("recipient", 8u8), ("kind", 1u8), ("grams", 8u8), ("witness", 9u8)],
        ),
    );
    out
}

pub open spec fn fields_bytes(fs: Seq<(Seq<char>, u8)>) -> Seq<u8>
    decreases fs.len(),
{
    if fs.len() == 0 {
        Seq::empty()
    } else {
        fields_bytes(fs.drop_last()) + ascii_bytes(fs.last().0) + seq![fs.last().1, FORMAT_FIELD_SEP]
    }
}

pub open spec fn encoding_bytes(t: Seq<(Seq<char>, Seq<(Seq<char>, u8)>)>) -> Seq<u8>
    decreases t.len(),
{
    if t.len() == 0 {
        Seq::empty()
    } else {
        encoding_bytes(t.drop_last()) + ascii_bytes(t.last().0) + seq![FORMAT_FIELD_SEP]
            + fields_bytes(t.last().1)
    }
}

/// Identity of the canonical command bytes — what a foreign caller must
/// produce for its input to mean anything.
pub fn command_encoding_fingerprint() -> (r: u64)
    ensures
        r == fnv_hash(encoding_bytes(command_encoding_spec())),
{
    let table = command_encoding();
    let ghost spec = command_encoding_spec();
    let mut bytes: Vec<u8> = Vec::new();
    let mut i: usize = 0;
    while i < table.len()
        invariant
            spec == command_encoding_spec(),
            table@.len() == 3,
            forall|a: int|
                0 <= a < 3 ==> {
                    &&& (#[trigger] table@[a]).0@ == spec[a].0
                    &&& table@[a].1@.len() == spec[a].1.len()
                    &&& forall|b: int|
                        0 <= b < table@[a].1@.len() ==> (#[trigger] table@[a].1@[b]).0@ == spec[a].1[b].0
                            && table@[a].1@[b].1 == spec[a].1[b].1
                },
            i <= 3,
            bytes@ == encoding_bytes(spec.take(i as int)),
        decreases 3 - i,
    {
        let (verb, fields) = &table[i];
        let ghost before = bytes@;
        push_ascii(&mut bytes, verb);
        bytes.push(FORMAT_FIELD_SEP);
        let ghost after_verb = bytes@;
        let mut j: usize = 0;
        while j < fields.len()
            invariant
                fields@ == table@[i as int].1@,
                fields@.len() == spec[i as int].1.len(),
                forall|b: int|
                    0 <= b < fields@.len() ==> (#[trigger] fields@[b]).0@ == spec[i as int].1[b].0
                        && fields@[b].1 == spec[i as int].1[b].1,
                j <= fields@.len(),
                bytes@ == after_verb + fields_bytes(spec[i as int].1.take(j as int)),
            decreases fields@.len() - j,
        {
            let (name, width) = fields[j];
            push_ascii(&mut bytes, name);
            bytes.push(width);
            bytes.push(FORMAT_FIELD_SEP);
            proof {
                let t = spec[i as int].1.take(j as int + 1);
                assert(t.drop_last() =~= spec[i as int].1.take(j as int));
                assert(bytes@ =~= after_verb + fields_bytes(t));
            }
            j = j + 1;
        }
        proof {
            assert(spec[i as int].1.take(fields@.len() as int) =~= spec[i as int].1);
            let t = spec.take(i as int + 1);
            assert(t.drop_last() =~= spec.take(i as int));
            assert(bytes@ =~= encoding_bytes(t));
        }
        i = i + 1;
    }
    proof {
        assert(spec.take(3) =~= spec);
    }
    hash_bytes(&bytes)
}

pub open spec fn receipt_fields_bytes(n: int) -> Seq<u8>
    decreases n,
{
    if n <= 0 {
        Seq::empty()
    } else {
        receipt_fields_bytes(n - 1) + ascii_bytes(RECEIPT_FIELDS[n - 1]@) + seq![FORMAT_FIELD_SEP]
    }
}

/// Identity of the canonical receipt line — what a reader of the ledger
/// must expect.
pub fn receipt_format_fingerprint() -> (r: u64)
    ensures
        r == fnv_hash(receipt_fields_bytes(19)),
{
    let mut bytes: Vec<u8> = Vec::new();
    let mut i: usize = 0;
    while i < 19
        invariant
            i <= 19,
            bytes@ == receipt_fields_bytes(i as int),
        decreases 19 - i,
    {
        push_ascii(&mut bytes, RECEIPT_FIELDS[i]);
        bytes.push(FORMAT_FIELD_SEP);
        proof {
            assert(bytes@ =~= receipt_fields_bytes(i as int + 1));
        }
        i = i + 1;
    }
    hash_bytes(&bytes)
}

} // verus!
