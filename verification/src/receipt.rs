//! Canonical receipts: one deterministic line per submitted command.

use vstd::prelude::*;

use crate::text::{
    dec_chars, hex_char, hex_prefixed, lemma_dec_chars_digits, nibble, push_char, push_decimal, push_hex,
    push_str,
};
use crate::vocab::{
    band_code, kind_code, outcome_code, outcome_reason_code, refusal_code, tier_code, verb_code,
    CharacterId, ClaimId, InfraTier, MassGrams, OutcomeKind, RefusalReason, ResourceKind, SiteId, Stamina, StaminaBand, Verb,
};
use crate::grammar::RECEIPT_FIELDS;
use crate::world::bool_chars;

verus! {

/// Canonical receipt for one submitted command. Every field is either a
/// closed code or a bounded integer, so the canonical line is
/// deterministic. It records the world hash both before and after the
/// command and the grammar fingerprint that produced it.
#[derive(Debug, Clone, Copy)]
pub struct Receipt {
    pub seq: u64,
    pub verb: Verb,
    pub actor: CharacterId,
    /// The claim a verb acted through; `None` for a transfer.
    pub claim: Option<ClaimId>,
    pub site: Option<SiteId>,
    /// The other party of a transfer; `None` for verbs without one.
    pub recipient: Option<CharacterId>,
    pub outcome: OutcomeKind,
    /// Whether the claim this verb acted through was witnessed before the
    /// command. A transfer acts through no claim and reports `false`.
    pub claim_witnessed: bool,
    /// The third party a transfer named as its witness, by identity.
    pub transfer_witness: Option<CharacterId>,
    pub stamina_before: Option<Stamina>,
    pub band: Option<StaminaBand>,
    pub tier: Option<InfraTier>,
    pub kind: Option<ResourceKind>,
    pub stamina_spent: u8,
    pub mass_moved: MassGrams,
    pub grammar: u64,
    pub world_hash_before: u64,
    pub world_hash_after: u64,
}

/// `-` for an absent id; otherwise the prefix letter and the decimal id.
pub open spec fn id_field(prefix: char, x: Option<u64>) -> Seq<char> {
    match x {
        Some(v) => seq![prefix] + dec_chars(v as nat),
        None => "-"@,
    }
}

pub open spec fn claim_num(x: Option<ClaimId>) -> Option<u64> {
    match x {
        Some(c) => Some(c.0),
        None => None,
    }
}

pub open spec fn site_num(x: Option<SiteId>) -> Option<u64> {
    match x {
        Some(s) => Some(s.0),
        None => None,
    }
}

pub open spec fn character_num(x: Option<CharacterId>) -> Option<u64> {
    match x {
        Some(c) => Some(c.0),
        None => None,
    }
}

pub open spec fn stamina_field(x: Option<Stamina>) -> Seq<char> {
    match x {
        Some(s) => dec_chars(s@ as nat),
        None => "-"@,
    }
}

pub open spec fn band_field(x: Option<StaminaBand>) -> Seq<char> {
    match x {
        Some(b) => band_code(b),
        None => "-"@,
    }
}

pub open spec fn tier_field(x: Option<InfraTier>) -> Seq<char> {
    match x {
        Some(t) => tier_code(t),
        None => "-"@,
    }
}

pub open spec fn kind_field(x: Option<ResourceKind>) -> Seq<char> {
    match x {
        Some(k) => kind_code(k),
        None => "-"@,
    }
}

/// `name=value` pairs joined by single spaces, in order.
pub open spec fn field_line(names: Seq<Seq<char>>, values: Seq<Seq<char>>) -> Seq<char>
    decreases names.len(),
{
    if names.len() == 0 {
        Seq::empty()
    } else if names.len() == 1 {
        names[0] + "="@ + values[0]
    } else {
        field_line(names.drop_last(), values.drop_last()) + " "@ + names.last() + "="@ + values.last()
    }
}

/// The declared receipt field names, in order.
pub open spec fn receipt_field_names() -> Seq<Seq<char>> {
    RECEIPT_FIELDS@.map_values(|f: &'static str| f@)
}

/// The printed value of every receipt field, in the order of
/// `RECEIPT_FIELDS`: ids with their prefix letter, closed codes, decimals
/// and `0x`-prefixed hashes; `-` for an absent value.
pub open spec fn receipt_values(r: Receipt) -> Seq<Seq<char>> {
    seq![
        dec_chars(r.seq as nat),
        verb_code(r.verb),
        seq!['C'] + dec_chars(r.actor.0 as nat),
        id_field('K', claim_num(r.claim)),
        id_field('S', site_num(r.site)),
        id_field('C', character_num(r.recipient)),
        outcome_code(r.outcome),
        outcome_reason_code(r.outcome),
        bool_chars(r.claim_witnessed),
        id_field('C', character_num(r.transfer_witness)),
        stamina_field(r.stamina_before),
        band_field(r.band),
        tier_field(r.tier),
        kind_field(r.kind),
        dec_chars(r.stamina_spent as nat),
        dec_chars(r.mass_moved@ as nat),
        hex_prefixed(r.grammar),
        hex_prefixed(r.world_hash_before),
        hex_prefixed(r.world_hash_after),
    ]
}

/// The canonical line of a receipt: every field of `RECEIPT_FIELDS`, in
/// order, as `name=value`, separated by single spaces.
pub open spec fn receipt_line(r: Receipt) -> Seq<char> {
    field_line(receipt_field_names(), receipt_values(r))
}

/// The line of the first `k` fields.
pub open spec fn receipt_prefix(r: Receipt, k: int) -> Seq<char> {
    field_line(receipt_field_names().take(k), receipt_values(r).take(k))
}

proof fn lemma_receipt_prefix_first(r: Receipt)
    ensures
        receipt_prefix(r, 1) == receipt_field_names()[0] + "="@ + receipt_values(r)[0],
{
    assert(receipt_field_names().take(1)[0] == receipt_field_names()[0]);
    assert(receipt_values(r).take(1)[0] == receipt_values(r)[0]);
}

proof fn lemma_receipt_prefix_step(r: Receipt, k: int)
    requires
        1 <= k < 19,
    ensures
        receipt_prefix(r, k + 1) == receipt_prefix(r, k) + " "@ + receipt_field_names()[k] + "="@
            + receipt_values(r)[k],
{
    let n = receipt_field_names();
    let v = receipt_values(r);
    assert(n.take(k + 1).drop_last() =~= n.take(k));
    assert(v.take(k + 1).drop_last() =~= v.take(k));
    assert(n.take(k + 1).last() == n[k]);
    assert(v.take(k + 1).last() == v[k]);
}

proof fn lemma_receipt_prefix_whole(r: Receipt)
    ensures
        receipt_prefix(r, 19) == receipt_line(r),
{
    assert(receipt_field_names().take(19) =~= receipt_field_names());
    assert(receipt_values(r).take(19) =~= receipt_values(r));
}

/// Every receipt line lists the declared fields, in order: its first
/// `k + 1` fields are its first `k` fields, a space, the `k`-th declared
/// name, `=` and that field's value; and no value is empty.
pub proof fn law_receipt_line_follows_the_declared_fields(r: Receipt, k: int)
    requires
        1 <= k < 19,
    ensures
        receipt_field_names().len() == 19,
        receipt_values(r).len() == 19,
        receipt_prefix(r, 1) == receipt_field_names()[0] + "="@ + receipt_values(r)[0],
        receipt_prefix(r, k + 1) == receipt_prefix(r, k) + " "@ + receipt_field_names()[k] + "="@
            + receipt_values(r)[k],
        receipt_prefix(r, 19) == receipt_line(r),
{
    lemma_receipt_prefix_first(r);
    lemma_receipt_prefix_step(r, k);
    lemma_receipt_prefix_whole(r);
}

/// Neither a space nor `=` occurs in `v`.
pub open spec fn plain(v: Seq<char>) -> bool {
    forall|i: int| 0 <= i < v.len() ==> v[i] != ' ' && v[i] != '='
}

proof fn lemma_dec_plain(n: nat)
    ensures
        plain(dec_chars(n)),
{
    lemma_dec_chars_digits(n);
}

proof fn lemma_hex_plain(x: u64)
    ensures
        plain(hex_prefixed(x)),
{
    let h = hex_prefixed(x);
    assert forall|i: int| 0 <= i < h.len() implies h[i] != ' ' && h[i] != '=' by {
        if i >= 2 {
            let j = i - 2;
            let y = x >> ((60 - 4 * j) as u64);
            assert(y & 15u64 <= 15u64) by (bit_vector);
            assert(h[i] == hex_char(nibble(x, j)));
        }
    }
}

proof fn lemma_id_field_plain(prefix: char, x: Option<u64>)
    requires
        prefix != ' ' && prefix != '=',
    ensures
        plain(id_field(prefix, x)),
{
    reveal_strlit("-");
    if let Some(v) = x {
        lemma_dec_plain(v as nat);
        assert forall|i: int| 0 <= i < id_field(prefix, x).len() implies id_field(prefix, x)[i] != ' '
            && id_field(prefix, x)[i] != '=' by {
            if i > 0 {
                assert(id_field(prefix, x)[i] == dec_chars(v as nat)[i - 1]);
            }
        }
    }
}

proof fn lemma_refusal_code_plain(r: RefusalReason)
    ensures
        plain(refusal_code(r)),
{
    reveal_strlit("unknown_actor");
    reveal_strlit("unknown_site");
    reveal_strlit("unknown_claim");
    reveal_strlit("claim_not_held_by_actor");
    reveal_strlit("claim_site_mismatch");
    reveal_strlit("claim_not_witnessed");
    reveal_strlit("actor_exhausted");
    reveal_strlit("insufficient_stamina");
    reveal_strlit("site_empty");
    reveal_strlit("claim_already_witnessed");
    reveal_strlit("cannot_witness_own_claim");
    reveal_strlit("unknown_recipient");
    reveal_strlit("cannot_give_to_self");
    reveal_strlit("insufficient_holding");
    reveal_strlit("empty_transfer");
    reveal_strlit("unknown_witness");
    reveal_strlit("witness_is_party");
}

proof fn lemma_codes_plain(v: Verb, o: OutcomeKind, w: bool)
    ensures
        plain(verb_code(v)),
        plain(outcome_code(o)),
        plain(outcome_reason_code(o)),
        plain(bool_chars(w)),
{
    reveal_strlit("gather");
    reveal_strlit("witness");
    reveal_strlit("give");
    reveal_strlit("accepted");
    reveal_strlit("partial");
    reveal_strlit("refused");
    reveal_strlit("-");
    reveal_strlit("site_nearly_depleted");
    reveal_strlit("true");
    reveal_strlit("false");
    if let OutcomeKind::Refused(r) = o {
        lemma_refusal_code_plain(r);
    }
}

proof fn lemma_optional_codes_plain(st: Option<Stamina>, b: Option<StaminaBand>, t: Option<InfraTier>, k: Option<ResourceKind>)
    ensures
        plain(stamina_field(st)),
        plain(band_field(b)),
        plain(tier_field(t)),
        plain(kind_field(k)),
{
    reveal_strlit("-");
    reveal_strlit("exhausted");
    reveal_strlit("low");
    reveal_strlit("steady");
    reveal_strlit("fresh");
    reveal_strlit("none");
    reveal_strlit("crude");
    reveal_strlit("established");
    reveal_strlit("advanced");
    reveal_strlit("fodder");
    reveal_strlit("food");
    reveal_strlit("timber");
    if let Some(x) = st {
        lemma_dec_plain(x@ as nat);
    }
}

/// Every declared field name is nonempty, and neither a name nor any value
/// of any receipt holds a space or `=`: cutting a receipt line at its
/// spaces, and each piece at its `=`, gives back the declared names in
/// order with their values.
pub proof fn law_receipt_fields_split_cleanly(r: Receipt)
    ensures
        forall|k: int| 0 <= k < 19 ==> #[trigger] receipt_field_names()[k].len() > 0 && plain(receipt_field_names()[k]),
        forall|k: int| 0 <= k < 19 ==> plain(#[trigger] receipt_values(r)[k]),
{
    reveal_strlit("seq");
    reveal_strlit("verb");
    reveal_strlit("actor");
    reveal_strlit("claim");
    reveal_strlit("site");
    reveal_strlit("to");
    reveal_strlit("outcome");
    reveal_strlit("reason");
    reveal_strlit("claim_witnessed");
    reveal_strlit("transfer_witness");
    reveal_strlit("stamina_before");
    reveal_strlit("band");
    reveal_strlit("tier");
    reveal_strlit("kind");
    reveal_strlit("spent");
    reveal_strlit("mass_g");
    reveal_strlit("grammar");
    reveal_strlit("world_before");
    reveal_strlit("world");
    let v = receipt_values(r);
    lemma_dec_plain(r.seq as nat);
    lemma_dec_plain(r.actor.0 as nat);
    lemma_dec_plain(r.stamina_spent as nat);
    lemma_dec_plain(r.mass_moved@ as nat);
    lemma_hex_plain(r.grammar);
    lemma_hex_plain(r.world_hash_before);
    lemma_hex_plain(r.world_hash_after);
    lemma_id_field_plain('K', claim_num(r.claim));
    lemma_id_field_plain('S', site_num(r.site));
    lemma_id_field_plain('C', character_num(r.recipient));
    lemma_id_field_plain('C', character_num(r.transfer_witness));
    lemma_codes_plain(r.verb, r.outcome, r.claim_witnessed);
    lemma_optional_codes_plain(r.stamina_before, r.band, r.tier, r.kind);
    assert(plain(v[2])) by {
        assert forall|i: int| 0 <= i < v[2].len() implies v[2][i] != ' ' && v[2][i] != '=' by {
            if i > 0 {
                assert(v[2][i] == dec_chars(r.actor.0 as nat)[i - 1]);
            }
        }
    }
}

/// A `name=value` line over values free of spaces and `=` gives back its
/// values: equal lines over the same names have equal values.
proof fn lemma_field_line_injective(names: Seq<Seq<char>>, v1: Seq<Seq<char>>, v2: Seq<Seq<char>>)
    requires
        names.len() == v1.len(),
        names.len() == v2.len(),
        forall|i: int| 0 <= i < v1.len() ==> plain(#[trigger] v1[i]),
        forall|i: int| 0 <= i < v2.len() ==> plain(#[trigger] v2[i]),
        field_line(names, v1) == field_line(names, v2),
    ensures
        v1 == v2,
    decreases names.len(),
{
    reveal_strlit("=");
    if names.len() == 0 {
        assert(v1 =~= v2);
    } else if names.len() == 1 {
        let p = names[0] + "="@;
        assert((p + v1[0]).skip(p.len() as int) =~= v1[0]);
        assert((p + v2[0]).skip(p.len() as int) =~= v2[0]);
        assert(v1 =~= v2);
    } else {
        let n = names.last();
        let a = v1.last();
        let b = v2.last();
        assert(plain(v1[v1.len() - 1]));
        assert(plain(v2[v2.len() - 1]));
        let f1 = field_line(names.drop_last(), v1.drop_last());
        let f2 = field_line(names.drop_last(), v2.drop_last());
        let p1 = f1 + " "@ + n + "="@;
        let p2 = f2 + " "@ + n + "="@;
        let l = p1 + a;
        assert(l == p2 + b);
        assert(p1[p1.len() - 1] == '=');
        assert(p2[p2.len() - 1] == '=');
        if a.len() < b.len() {
            let k = p1.len() - 1;
            assert(l[k] == '=');
            assert((p2 + b)[k] == b[k - p2.len()]);
        } else if b.len() < a.len() {
            let k = p2.len() - 1;
            assert((p2 + b)[k] == '=');
            assert(l[k] == a[k - p1.len()]);
        }
        assert(a =~= l.skip(p1.len() as int));
        assert(b =~= (p2 + b).skip(p2.len() as int));
        assert(p1 =~= l.take(p1.len() as int));
        assert(p2 =~= (p2 + b).take(p2.len() as int));
        assert(f1 =~= p1.take(f1.len() as int));
        assert(f2 =~= p2.take(f2.len() as int));
        assert forall|i: int| 0 <= i < v1.drop_last().len() implies plain(#[trigger] v1.drop_last()[i]) by {
            assert(plain(v1[i]));
        }
        assert forall|i: int| 0 <= i < v2.drop_last().len() implies plain(#[trigger] v2.drop_last()[i]) by {
            assert(plain(v2[i]));
        }
        lemma_field_line_injective(names.drop_last(), v1.drop_last(), v2.drop_last());
        assert(v1 =~= v1.drop_last().push(a));
        assert(v2 =~= v2.drop_last().push(b));
    }
}

/// A receipt line reads back as every printed value: two receipts with the
/// same canonical line print the same value in every field.
pub proof fn law_receipt_line_reads_back(r1: Receipt, r2: Receipt)
    requires
        receipt_line(r1) == receipt_line(r2),
    ensures
        receipt_values(r1) == receipt_values(r2),
{
    law_receipt_fields_split_cleanly(r1);
    law_receipt_fields_split_cleanly(r2);
    lemma_field_line_injective(receipt_field_names(), receipt_values(r1), receipt_values(r2));
}

/// The tier, band and kind a receipt records all reach its line: receipts
/// that differ in any of them have different canonical lines.
pub proof fn law_recorded_codes_reach_the_line(r1: Receipt, r2: Receipt)
    requires
        r1.tier != r2.tier || r1.band != r2.band || r1.kind != r2.kind,
    ensures
        receipt_line(r1) != receipt_line(r2),
{
    if receipt_line(r1) == receipt_line(r2) {
        law_receipt_line_reads_back(r1, r2);
        assert(receipt_values(r1)[11] == receipt_values(r2)[11]);
        assert(receipt_values(r1)[12] == receipt_values(r2)[12]);
        assert(receipt_values(r1)[13] == receipt_values(r2)[13]);
        reveal_strlit("-");
        reveal_strlit("exhausted");
        reveal_strlit("low");
        reveal_strlit("steady");
        reveal_strlit("fresh");
        reveal_strlit("none");
        reveal_strlit("crude");
        reveal_strlit("established");
        reveal_strlit("advanced");
        reveal_strlit("fodder");
        reveal_strlit("food");
        reveal_strlit("timber");
        if r1.tier != r2.tier {
            assert(tier_field(r1.tier).len() != tier_field(r2.tier).len());
        } else if r1.band != r2.band {
            assert(band_field(r1.band).len() != band_field(r2.band).len());
        } else {
            if kind_field(r1.kind).len() == kind_field(r2.kind).len() {
                assert(kind_field(r1.kind)[0] != kind_field(r2.kind)[0]);
            }
        }
    }
}

/// Appends a space, the `k`-th declared field name and `=`.
fn push_field_name(s: &mut String, k: usize)
    requires
        k < 19,
    ensures
        final(s)@ == old(s)@ + " "@ + receipt_field_names()[k as int] + "="@,
{
    push_str(s, " ");
    push_str(s, RECEIPT_FIELDS[k]);
    push_str(s, "=");
}

fn push_id_field(s: &mut String, prefix: char, x: Option<u64>)
    ensures
        final(s)@ == old(s)@ + id_field(prefix, x),
{
    match x {
        Some(v) => {
            push_char(s, prefix);
            push_decimal(s, v);
        },
        None => push_str(s, "-"),
    }
    assert(final(s)@ =~= old(s)@ + id_field(prefix, x));
}

impl Receipt {
    pub fn canonical_line(&self) -> (r: String)
        ensures
            r@ == receipt_line(*self),
    {
        let ghost me = *self;
        let mut s = String::new();
        push_str(&mut s, RECEIPT_FIELDS[0]);
        push_str(&mut s, "=");
        push_decimal(&mut s, self.seq);
        proof {
            lemma_receipt_prefix_first(me);
        }
        push_field_name(&mut s, 1);
        push_str(&mut s, self.verb.code());
        proof {
            lemma_receipt_prefix_step(me, 1);
        }
        push_field_name(&mut s, 2);
        push_char(&mut s, 'C');
        push_decimal(&mut s, self.actor.0);
        proof {
            lemma_receipt_prefix_step(me, 2);
            assert(s@ =~= receipt_prefix(me, 3));
        }
        push_field_name(&mut s, 3);
        push_id_field(
            &mut s,
            'K',
            match self.claim {
                Some(c) => Some(c.0),
                None => None,
            },
        );
        proof {
            lemma_receipt_prefix_step(me, 3);
        }
        push_field_name(&mut s, 4);
        push_id_field(
            &mut s,
            'S',
            match self.site {
                Some(x) => Some(x.0),
                None => None,
            },
        );
        proof {
            lemma_receipt_prefix_step(me, 4);
        }
        push_field_name(&mut s, 5);
        push_id_field(
            &mut s,
            'C',
            match self.recipient {
                Some(x) => Some(x.0),
                None => None,
            },
        );
        proof {
            lemma_receipt_prefix_step(me, 5);
        }
        push_field_name(&mut s, 6);
        push_str(&mut s, self.outcome.code());
        proof {
            lemma_receipt_prefix_step(me, 6);
        }
        push_field_name(&mut s, 7);
        push_str(&mut s, self.outcome.reason_code());
        proof {
            lemma_receipt_prefix_step(me, 7);
        }
        push_field_name(&mut s, 8);
        push_str(
            &mut s,
            if self.claim_witnessed {
                "true"
            } else {
                "false"
            },
        );
        proof {
            lemma_receipt_prefix_step(me, 8);
        }
        push_field_name(&mut s, 9);
        push_id_field(
            &mut s,
            'C',
            match self.transfer_witness {
                Some(x) => Some(x.0),
                None => None,
            },
        );
        proof {
            lemma_receipt_prefix_step(me, 9);
        }
        push_field_name(&mut s, 10);
        match self.stamina_before {
            Some(st) => push_decimal(&mut s, st.points() as u64),
            None => push_str(&mut s, "-"),
        }
        proof {
            lemma_receipt_prefix_step(me, 10);
        }
        push_field_name(&mut s, 11);
        match self.band {
            Some(b) => push_str(&mut s, b.code()),
            None => push_str(&mut s, "-"),
        }
        proof {
            lemma_receipt_prefix_step(me, 11);
        }
        push_field_name(&mut s, 12);
        match self.tier {
            Some(t) => push_str(&mut s, t.code()),
            None => push_str(&mut s, "-"),
        }
        proof {
            lemma_receipt_prefix_step(me, 12);
        }
        push_field_name(&mut s, 13);
        match self.kind {
            Some(k) => push_str(&mut s, k.code()),
            None => push_str(&mut s, "-"),
        }
        proof {
            lemma_receipt_prefix_step(me, 13);
        }
        push_field_name(&mut s, 14);
        push_decimal(&mut s, self.stamina_spent as u64);
        proof {
            lemma_receipt_prefix_step(me, 14);
        }
        push_field_name(&mut s, 15);
        push_decimal(&mut s, self.mass_moved.grams());
        proof {
            lemma_receipt_prefix_step(me, 15);
        }
        push_field_name(&mut s, 16);
        push_hex(&mut s, self.grammar);
        proof {
            lemma_receipt_prefix_step(me, 16);
        }
        push_field_name(&mut s, 17);
        push_hex(&mut s, self.world_hash_before);
        proof {
            lemma_receipt_prefix_step(me, 17);
        }
        push_field_name(&mut s, 18);
        push_hex(&mut s, self.world_hash_after);
        proof {
            lemma_receipt_prefix_step(me, 18);
            lemma_receipt_prefix_whole(me);
        }
        s
    }
}

} // verus!
