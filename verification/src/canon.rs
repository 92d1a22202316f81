//! The canonical state is a faithful spelling of everything the world hash
//! reads: each line kind can be read back into the fields it prints, so two
//! worlds with the same canonical lines hash the same bytes.

use vstd::prelude::*;

use crate::character::{
    character_bytes, record_bytes, records_bytes, stamina_of, CharacterModel, StaminaRecord,
};
use crate::command::lemma_be8_injective;
use crate::fnv::be8;
use crate::economy::{
    apply_extract_spec, apply_transfer_spec, economy_bytes, economy_wf, holding_key, holding_of, holdings_wf,
    lemma_holding_key_injective, lemma_set_holding, set_holding_spec, site_bytes, sites_bytes,
    EconomyModel, ExtractFacts, HoldingRecord, SiteRecord, TransferFacts,
};
use crate::keyed::{
    has_key, key_index, lemma_key_index, lemma_lookup_ext, lemma_sorted_unique, lookup, Keyed,
};
use crate::social::{claim_bytes, claims_bytes, social_bytes, ClaimRecord, SocialModel};
use crate::text::{dec_chars, lemma_dec_chars_digits, lemma_dec_chars_injective};
use crate::vocab::{kind_code, tier_code, InfraTier, ResourceKind};
use crate::world::{
    bool_chars, canonical_lines, character_line, claim_line, kind_segment, revisions_line, site_line,
    world_bytes, world_wf, WorldModel,
};

verus! {

/// No character of `s` is a space.
pub open spec fn spaceless(s: Seq<char>) -> bool {
    forall|i: int| 0 <= i < s.len() ==> s[i] != ' '
}

/// `s` is nonempty and starts with a space.
pub open spec fn opens_with_space(s: Seq<char>) -> bool {
    s.len() > 0 && s[0] == ' '
}

proof fn lemma_drop_prefix(p: Seq<char>, x1: Seq<char>, x2: Seq<char>)
    requires
        p + x1 == p + x2,
    ensures
        x1 == x2,
{
    assert(x1 =~= (p + x1).skip(p.len() as int));
    assert(x2 =~= (p + x2).skip(p.len() as int));
}

/// Two spellings that agree up to their first space agree on the word
/// before it and on everything from it on.
proof fn lemma_cut_at_space(a1: Seq<char>, b1: Seq<char>, a2: Seq<char>, b2: Seq<char>)
    requires
        a1 + b1 == a2 + b2,
        spaceless(a1),
        spaceless(a2),
        opens_with_space(b1),
        opens_with_space(b2),
    ensures
        a1 == a2,
        b1 == b2,
{
    let l = a1 + b1;
    let r = a2 + b2;
    if a1.len() < a2.len() {
        assert(l[a1.len() as int] == ' ');
        assert(r[a1.len() as int] == a2[a1.len() as int]);
    } else if a2.len() < a1.len() {
        assert(r[a2.len() as int] == ' ');
        assert(l[a2.len() as int] == a1[a2.len() as int]);
    }
    assert(a1 =~= l.take(a1.len() as int));
    assert(a2 =~= r.take(a2.len() as int));
    assert(b1 =~= l.skip(a1.len() as int));
    assert(b2 =~= r.skip(a2.len() as int));
}

proof fn lemma_dec_spaceless(n: nat)
    ensures
        spaceless(dec_chars(n)),
{
    lemma_dec_chars_digits(n);
}

/// A number followed by a space-led rest reads back as that number and
/// that rest.
proof fn lemma_cut_number(n1: nat, b1: Seq<char>, n2: nat, b2: Seq<char>)
    requires
        dec_chars(n1) + b1 == dec_chars(n2) + b2,
        opens_with_space(b1),
        opens_with_space(b2),
    ensures
        n1 == n2,
        b1 == b2,
{
    lemma_dec_spaceless(n1);
    lemma_dec_spaceless(n2);
    lemma_cut_at_space(dec_chars(n1), b1, dec_chars(n2), b2);
    lemma_dec_chars_injective(n1, n2);
}

/// After a common literal, a number followed by a space-led rest.
proof fn lemma_read_number(p: Seq<char>, n1: nat, b1: Seq<char>, n2: nat, b2: Seq<char>)
    requires
        p + (dec_chars(n1) + b1) == p + (dec_chars(n2) + b2),
        opens_with_space(b1),
        opens_with_space(b2),
    ensures
        n1 == n2,
        b1 == b2,
{
    lemma_drop_prefix(p, dec_chars(n1) + b1, dec_chars(n2) + b2);
    lemma_cut_number(n1, b1, n2, b2);
}

/// After a common literal, a number that ends the line.
proof fn lemma_read_last_number(p: Seq<char>, n1: nat, n2: nat)
    requires
        p + dec_chars(n1) == p + dec_chars(n2),
    ensures
        n1 == n2,
{
    lemma_drop_prefix(p, dec_chars(n1), dec_chars(n2));
    lemma_dec_chars_injective(n1, n2);
}

proof fn lemma_tier_code(t1: InfraTier, t2: InfraTier)
    ensures
        spaceless(tier_code(t1)),
        tier_code(t1) == tier_code(t2) ==> t1 == t2,
{
    reveal_strlit("none");
    reveal_strlit("crude");
    reveal_strlit("established");
    reveal_strlit("advanced");
    if tier_code(t1) == tier_code(t2) && t1 != t2 {
        assert(tier_code(t1).len() == tier_code(t2).len());
    }
}

proof fn lemma_kind_code(k1: ResourceKind, k2: ResourceKind)
    ensures
        spaceless(kind_code(k1)),
        kind_code(k1) == kind_code(k2) ==> k1 == k2,
{
    reveal_strlit("fodder");
    reveal_strlit("food");
    reveal_strlit("timber");
    if kind_code(k1) == kind_code(k2) && k1 != k2 {
        assert(kind_code(k1)[0] == kind_code(k2)[0]);
        assert(kind_code(k1)[1] == kind_code(k2)[1]);
        assert(kind_code(k1).len() == kind_code(k2).len());
    }
}

proof fn lemma_bool_chars(b1: bool, b2: bool)
    ensures
        bool_chars(b1) == bool_chars(b2) ==> b1 == b2,
{
    reveal_strlit("true");
    reveal_strlit("false");
    if b1 != b2 {
        assert(bool_chars(b1).len() != bool_chars(b2).len());
    }
}

/// The three holding segments of a character line read back as the three
/// holdings.
proof fn lemma_segments_read_back(e1: EconomyModel, id1: u64, e2: EconomyModel, id2: u64)
    requires
        kind_segment(e1, id1, ResourceKind::Fodder) + kind_segment(e1, id1, ResourceKind::Food)
            + kind_segment(e1, id1, ResourceKind::Timber) == kind_segment(e2, id2, ResourceKind::Fodder)
            + kind_segment(e2, id2, ResourceKind::Food) + kind_segment(e2, id2, ResourceKind::Timber),
    ensures
        forall|k: ResourceKind| #[trigger] holding_of(e1, id1, k) == holding_of(e2, id2, k),
{
    reveal_strlit(" ");
    let f = ResourceKind::Fodder;
    let o = ResourceKind::Food;
    let t = ResourceKind::Timber;
    let pf = " "@ + kind_code(f) + "_g="@;
    let po = " "@ + kind_code(o) + "_g="@;
    let pt = " "@ + kind_code(t) + "_g="@;
    let w1 = kind_segment(e1, id1, t);
    let w2 = kind_segment(e2, id2, t);
    let v1 = kind_segment(e1, id1, o) + w1;
    let v2 = kind_segment(e2, id2, o) + w2;
    assert(kind_segment(e1, id1, f) + kind_segment(e1, id1, o) + w1 =~= pf + (dec_chars(
        holding_of(e1, id1, f) as nat,
    ) + v1));
    assert(kind_segment(e2, id2, f) + kind_segment(e2, id2, o) + w2 =~= pf + (dec_chars(
        holding_of(e2, id2, f) as nat,
    ) + v2));
    assert(v1[0] == ' ');
    assert(v2[0] == ' ');
    lemma_read_number(pf, holding_of(e1, id1, f) as nat, v1, holding_of(e2, id2, f) as nat, v2);
    assert(v1 =~= po + (dec_chars(holding_of(e1, id1, o) as nat) + w1));
    assert(v2 =~= po + (dec_chars(holding_of(e2, id2, o) as nat) + w2));
    assert(w1[0] == ' ');
    assert(w2[0] == ' ');
    lemma_read_number(po, holding_of(e1, id1, o) as nat, w1, holding_of(e2, id2, o) as nat, w2);
    lemma_read_last_number(pt, holding_of(e1, id1, t) as nat, holding_of(e2, id2, t) as nat);
    assert forall|k: ResourceKind| #[trigger] holding_of(e1, id1, k) == holding_of(e2, id2, k) by {
        match k {
            ResourceKind::Fodder => {},
            ResourceKind::Food => {},
            ResourceKind::Timber => {},
        }
    }
}

proof fn lemma_regroup(
    a: Seq<char>,
    b: Seq<char>,
    c: Seq<char>,
    d: Seq<char>,
    s1: Seq<char>,
    s2: Seq<char>,
    s3: Seq<char>,
)
    ensures
        a + b + c + d + s1 + s2 + s3 == a + (b + (c + (d + (s1 + s2 + s3)))),
{
    assert(a + b + c + d + s1 + s2 + s3 =~= a + (b + (c + (d + (s1 + s2 + s3)))));
}

/// A character line reads back as the character's id, its stamina and
/// each of its holdings.
#[verifier::spinoff_prover]
pub proof fn lemma_character_line_reads_back(e1: EconomyModel, r1: StaminaRecord, e2: EconomyModel, r2: StaminaRecord)
    requires
        character_line(e1, r1) == character_line(e2, r2),
    ensures
        r1.id == r2.id,
        r1.points == r2.points,
        forall|k: ResourceKind| #[trigger] holding_of(e1, r1.id, k) == holding_of(e2, r2.id, k),
{
    reveal_strlit(" stamina=");
    reveal_strlit(" ");
    let u1 = kind_segment(e1, r1.id, ResourceKind::Fodder) + kind_segment(e1, r1.id, ResourceKind::Food)
        + kind_segment(e1, r1.id, ResourceKind::Timber);
    let u2 = kind_segment(e2, r2.id, ResourceKind::Fodder) + kind_segment(e2, r2.id, ResourceKind::Food)
        + kind_segment(e2, r2.id, ResourceKind::Timber);
    let t1 = " stamina="@ + (dec_chars(r1.points as nat) + u1);
    let t2 = " stamina="@ + (dec_chars(r2.points as nat) + u2);
    lemma_regroup(
        "character C"@,
        dec_chars(r1.id as nat),
        " stamina="@,
        dec_chars(r1.points as nat),
        kind_segment(e1, r1.id, ResourceKind::Fodder),
        kind_segment(e1, r1.id, ResourceKind::Food),
        kind_segment(e1, r1.id, ResourceKind::Timber),
    );
    lemma_regroup(
        "character C"@,
        dec_chars(r2.id as nat),
        " stamina="@,
        dec_chars(r2.points as nat),
        kind_segment(e2, r2.id, ResourceKind::Fodder),
        kind_segment(e2, r2.id, ResourceKind::Food),
        kind_segment(e2, r2.id, ResourceKind::Timber),
    );
    assert(character_line(e1, r1) == "character C"@ + (dec_chars(r1.id as nat) + t1));
    assert(character_line(e2, r2) == "character C"@ + (dec_chars(r2.id as nat) + t2));
    assert(t1[0] == ' ');
    assert(t2[0] == ' ');
    lemma_read_number("character C"@, r1.id as nat, t1, r2.id as nat, t2);
    assert(u1[0] == ' ');
    assert(u2[0] == ' ');
    lemma_read_number(" stamina="@, r1.points as nat, u1, r2.points as nat, u2);
    lemma_segments_read_back(e1, r1.id, e2, r2.id);
}

proof fn lemma_regroup8(
    a: Seq<char>,
    b: Seq<char>,
    c: Seq<char>,
    d: Seq<char>,
    e: Seq<char>,
    f: Seq<char>,
    g: Seq<char>,
    h: Seq<char>,
)
    ensures
        a + b + c + d + e + f + g + h == a + (b + (c + (d + (e + (f + (g + h)))))),
{
    assert(a + b + c + d + e + f + g + h =~= a + (b + (c + (d + (e + (f + (g + h)))))));
}

proof fn lemma_regroup6(a: Seq<char>, b: Seq<char>, c: Seq<char>, d: Seq<char>, e: Seq<char>, f: Seq<char>)
    ensures
        a + b + c + d + e + f == a + (b + (c + (d + (e + f)))),
{
    assert(a + b + c + d + e + f =~= a + (b + (c + (d + (e + f)))));
}

/// A site line reads back as the site's id, tier, kind and stock.
#[verifier::spinoff_prover]
pub proof fn lemma_site_line_reads_back(s1: SiteRecord, s2: SiteRecord)
    requires
        site_line(s1) == site_line(s2),
    ensures
        s1.id == s2.id,
        s1.tier == s2.tier,
        s1.kind == s2.kind,
        s1.stock == s2.stock,
{
    reveal_strlit(" tier=");
    reveal_strlit(" kind=");
    reveal_strlit(" stock_g=");
    lemma_regroup8(
        "site S"@,
        dec_chars(s1.id as nat),
        " tier="@,
        tier_code(s1.tier),
        " kind="@,
        kind_code(s1.kind),
        " stock_g="@,
        dec_chars(s1.stock as nat),
    );
    lemma_regroup8(
        "site S"@,
        dec_chars(s2.id as nat),
        " tier="@,
        tier_code(s2.tier),
        " kind="@,
        kind_code(s2.kind),
        " stock_g="@,
        dec_chars(s2.stock as nat),
    );
    let c1 = " stock_g="@ + dec_chars(s1.stock as nat);
    let c2 = " stock_g="@ + dec_chars(s2.stock as nat);
    let b1 = " kind="@ + (kind_code(s1.kind) + c1);
    let b2 = " kind="@ + (kind_code(s2.kind) + c2);
    let a1 = " tier="@ + (tier_code(s1.tier) + b1);
    let a2 = " tier="@ + (tier_code(s2.tier) + b2);
    assert(a1[0] == ' ');
    assert(a2[0] == ' ');
    lemma_read_number("site S"@, s1.id as nat, a1, s2.id as nat, a2);
    lemma_drop_prefix(" tier="@, tier_code(s1.tier) + b1, tier_code(s2.tier) + b2);
    assert(b1[0] == ' ');
    assert(b2[0] == ' ');
    lemma_tier_code(s1.tier, s2.tier);
    lemma_tier_code(s2.tier, s1.tier);
    lemma_cut_at_space(tier_code(s1.tier), b1, tier_code(s2.tier), b2);
    lemma_drop_prefix(" kind="@, kind_code(s1.kind) + c1, kind_code(s2.kind) + c2);
    assert(c1[0] == ' ');
    assert(c2[0] == ' ');
    lemma_kind_code(s1.kind, s2.kind);
    lemma_kind_code(s2.kind, s1.kind);
    lemma_cut_at_space(kind_code(s1.kind), c1, kind_code(s2.kind), c2);
    lemma_read_last_number(" stock_g="@, s1.stock as nat, s2.stock as nat);
}

/// A claim line reads back as the claim's id, holder, site and witness
/// flag.
#[verifier::spinoff_prover]
pub proof fn lemma_claim_line_reads_back(q1: ClaimRecord, q2: ClaimRecord)
    requires
        claim_line(q1) == claim_line(q2),
    ensures
        q1.id == q2.id,
        q1.holder == q2.holder,
        q1.site == q2.site,
        q1.witnessed == q2.witnessed,
{
    reveal_strlit(" holder=C");
    reveal_strlit(" site=S");
    reveal_strlit(" witnessed=");
    lemma_regroup8(
        "claim K"@,
        dec_chars(q1.id as nat),
        " holder=C"@,
        dec_chars(q1.holder as nat),
        " site=S"@,
        dec_chars(q1.site as nat),
        " witnessed="@,
        bool_chars(q1.witnessed),
    );
    lemma_regroup8(
        "claim K"@,
        dec_chars(q2.id as nat),
        " holder=C"@,
        dec_chars(q2.holder as nat),
        " site=S"@,
        dec_chars(q2.site as nat),
        " witnessed="@,
        bool_chars(q2.witnessed),
    );
    let c1 = " witnessed="@ + bool_chars(q1.witnessed);
    let c2 = " witnessed="@ + bool_chars(q2.witnessed);
    let b1 = " site=S"@ + (dec_chars(q1.site as nat) + c1);
    let b2 = " site=S"@ + (dec_chars(q2.site as nat) + c2);
    let a1 = " holder=C"@ + (dec_chars(q1.holder as nat) + b1);
    let a2 = " holder=C"@ + (dec_chars(q2.holder as nat) + b2);
    assert(a1[0] == ' ');
    assert(a2[0] == ' ');
    lemma_read_number("claim K"@, q1.id as nat, a1, q2.id as nat, a2);
    assert(b1[0] == ' ');
    assert(b2[0] == ' ');
    lemma_read_number(" holder=C"@, q1.holder as nat, b1, q2.holder as nat, b2);
    assert(c1[0] == ' ');
    assert(c2[0] == ' ');
    lemma_read_number(" site=S"@, q1.site as nat, c1, q2.site as nat, c2);
    lemma_drop_prefix(" witnessed="@, bool_chars(q1.witnessed), bool_chars(q2.witnessed));
    lemma_bool_chars(q1.witnessed, q2.witnessed);
}

/// The revisions line reads back as the three owner counters.
#[verifier::spinoff_prover]
pub proof fn lemma_revisions_line_reads_back(w1: WorldModel, w2: WorldModel)
    requires
        revisions_line(w1) == revisions_line(w2),
    ensures
        w1.characters.revision == w2.characters.revision,
        w1.economy.revision == w2.economy.revision,
        w1.social.revision == w2.social.revision,
{
    reveal_strlit(" economy=");
    reveal_strlit(" social=");
    lemma_regroup6(
        "revisions character="@,
        dec_chars(w1.characters.revision as nat),
        " economy="@,
        dec_chars(w1.economy.revision as nat),
        " social="@,
        dec_chars(w1.social.revision as nat),
    );
    lemma_regroup6(
        "revisions character="@,
        dec_chars(w2.characters.revision as nat),
        " economy="@,
        dec_chars(w2.economy.revision as nat),
        " social="@,
        dec_chars(w2.social.revision as nat),
    );
    let b1 = " social="@ + dec_chars(w1.social.revision as nat);
    let b2 = " social="@ + dec_chars(w2.social.revision as nat);
    let a1 = " economy="@ + (dec_chars(w1.economy.revision as nat) + b1);
    let a2 = " economy="@ + (dec_chars(w2.economy.revision as nat) + b2);
    assert(a1[0] == ' ');
    assert(a2[0] == ' ');
    lemma_read_number("revisions character="@, w1.characters.revision as nat, a1, w2.characters.revision as nat, a2);
    assert(b1[0] == ' ');
    assert(b2[0] == ' ');
    lemma_read_number(" economy="@, w1.economy.revision as nat, b1, w2.economy.revision as nat, b2);
    lemma_read_last_number(" social="@, w1.social.revision as nat, w2.social.revision as nat);
}

/// A character line starts with `ch`.
proof fn lemma_character_head(e: EconomyModel, r: StaminaRecord)
    ensures
        character_line(e, r).len() >= 2 && character_line(e, r)[0] == 'c' && character_line(e, r)[1] == 'h',
{
    reveal_strlit("character C");
    lemma_regroup(
        "character C"@,
        dec_chars(r.id as nat),
        " stamina="@,
        dec_chars(r.points as nat),
        kind_segment(e, r.id, ResourceKind::Fodder),
        kind_segment(e, r.id, ResourceKind::Food),
        kind_segment(e, r.id, ResourceKind::Timber),
    );
}

/// A site line starts with `s`.
proof fn lemma_site_head(s: SiteRecord)
    ensures
        site_line(s).len() >= 2 && site_line(s)[0] == 's',
{
    reveal_strlit("site S");
    lemma_regroup8(
        "site S"@,
        dec_chars(s.id as nat),
        " tier="@,
        tier_code(s.tier),
        " kind="@,
        kind_code(s.kind),
        " stock_g="@,
        dec_chars(s.stock as nat),
    );
}

/// A claim line starts with `cl`.
proof fn lemma_claim_head(q: ClaimRecord)
    ensures
        claim_line(q).len() >= 2 && claim_line(q)[0] == 'c' && claim_line(q)[1] == 'l',
{
    reveal_strlit("claim K");
    lemma_regroup8(
        "claim K"@,
        dec_chars(q.id as nat),
        " holder=C"@,
        dec_chars(q.holder as nat),
        " site=S"@,
        dec_chars(q.site as nat),
        " witnessed="@,
        bool_chars(q.witnessed),
    );
}

/// The revisions line starts with `r`.
proof fn lemma_revisions_head(w: WorldModel)
    ensures
        revisions_line(w).len() >= 2 && revisions_line(w)[0] == 'r',
{
    reveal_strlit("revisions character=");
    lemma_regroup6(
        "revisions character="@,
        dec_chars(w.characters.revision as nat),
        " economy="@,
        dec_chars(w.economy.revision as nat),
        " social="@,
        dec_chars(w.social.revision as nat),
    );
}

/// Where each kind of line stands in the canonical state.
proof fn lemma_lines_layout(w: WorldModel)
    ensures
        ({
            let l = canonical_lines(w);
            let c = w.characters.records.len() as int;
            let s = w.economy.sites.len() as int;
            let q = w.social.records.len() as int;
            &&& l.len() == c + s + q + 1
            &&& forall|i: int| 0 <= i < c ==> #[trigger] l[i] == character_line(w.economy, w.characters.records[i])
            &&& forall|i: int| c <= i < c + s ==> #[trigger] l[i] == site_line(w.economy.sites[i - c])
            &&& forall|i: int| c + s <= i < c + s + q ==> #[trigger] l[i] == claim_line(w.social.records[i - c - s])
            &&& l[c + s + q] == revisions_line(w)
        }),
{
}

/// Every stored holding belongs to a character of the world (true of every
/// seeded world, and kept by every submit).
pub open spec fn holdings_belong_to_characters(w: WorldModel) -> bool {
    forall|j: int|
        0 <= j < w.economy.holdings.len() ==> stamina_of(w.characters, (#[trigger] w.economy.holdings[j]).id) is Some
}

proof fn lemma_records_bytes_pointwise(a: Seq<StaminaRecord>, b: Seq<StaminaRecord>)
    requires
        a.len() == b.len(),
        forall|i: int| 0 <= i < a.len() ==> (#[trigger] a[i]).id == b[i].id && a[i].points == b[i].points,
    ensures
        records_bytes(a) == records_bytes(b),
    decreases a.len(),
{
    if a.len() > 0 {
        lemma_records_bytes_pointwise(a.drop_last(), b.drop_last());
        assert(a[a.len() - 1].id == b[a.len() - 1].id);
        assert(a.last().id == b.last().id && a.last().points == b.last().points);
    }
}

proof fn lemma_sites_bytes_pointwise(a: Seq<SiteRecord>, b: Seq<SiteRecord>)
    requires
        a.len() == b.len(),
        forall|i: int|
            0 <= i < a.len() ==> (#[trigger] a[i]).id == b[i].id && a[i].tier == b[i].tier && a[i].kind == b[i].kind
                && a[i].stock == b[i].stock,
    ensures
        sites_bytes(a) == sites_bytes(b),
    decreases a.len(),
{
    if a.len() > 0 {
        lemma_sites_bytes_pointwise(a.drop_last(), b.drop_last());
        assert(a[a.len() - 1].id == b[a.len() - 1].id);
        let x = a.last();
        let y = b.last();
        assert(x.id == y.id && x.tier == y.tier && x.kind == y.kind && x.stock == y.stock);
        assert(site_bytes(x) == site_bytes(y));
    }
}

proof fn lemma_claims_bytes_pointwise(a: Seq<ClaimRecord>, b: Seq<ClaimRecord>)
    requires
        a.len() == b.len(),
        forall|i: int|
            0 <= i < a.len() ==> (#[trigger] a[i]).id == b[i].id && a[i].holder == b[i].holder && a[i].site
                == b[i].site && a[i].witnessed == b[i].witnessed,
    ensures
        claims_bytes(a) == claims_bytes(b),
    decreases a.len(),
{
    if a.len() > 0 {
        lemma_claims_bytes_pointwise(a.drop_last(), b.drop_last());
        assert(a[a.len() - 1].id == b[a.len() - 1].id);
        let x = a.last();
        let y = b.last();
        assert(x.id == y.id && x.holder == y.holder && x.site == y.site && x.witnessed == y.witnessed);
        assert(claim_bytes(x) == claim_bytes(y));
    }
}

/// Characters listed in the same order, with the same holdings.
pub open spec fn same_characters_and_holdings(w1: WorldModel, w2: WorldModel) -> bool {
    &&& w1.characters.records.len() == w2.characters.records.len()
    &&& forall|i: int|
        0 <= i < w1.characters.records.len() ==> #[trigger] w1.characters.records[i].id
            == w2.characters.records[i].id
    &&& forall|i: int, k: ResourceKind|
        0 <= i < w1.characters.records.len() ==> #[trigger] holding_of(
            w1.economy,
            w1.characters.records[i].id,
            k,
        ) == holding_of(w2.economy, w1.characters.records[i].id, k)
}

/// A holding stored in `w1` is stored, unchanged, in `w2`.
proof fn lemma_holding_found(w1: WorldModel, w2: WorldModel, q: int)
    requires
        world_wf(w1),
        world_wf(w2),
        holdings_belong_to_characters(w1),
        same_characters_and_holdings(w1, w2),
        has_key(w1.economy.holdings, q),
    ensures
        lookup(w1.economy.holdings, q) == lookup(w2.economy.holdings, q),
{
    let h1 = w1.economy.holdings;
    let h2 = w2.economy.holdings;
    lemma_sorted_unique(h1);
    lemma_sorted_unique(h2);
    lemma_sorted_unique(w1.characters.records);
    let j = key_index(h1, q);
    let h = h1[j];
    lemma_key_index(h1, j);
    assert(stamina_of(w1.characters, h.id) is Some);
    let i = key_index(w1.characters.records, h.id as int);
    assert(w1.characters.records[i].id == h.id);
    assert(holding_of(w1.economy, w1.characters.records[i].id, h.kind) == holding_of(w2.economy, h.id, h.kind));
    assert(h.key() == holding_key(h.id, h.kind));
    assert(holding_of(w1.economy, h.id, h.kind) == h.grams);
    assert(h.grams > 0);
    if !has_key(h2, q) {
        assert(holding_of(w2.economy, h.id, h.kind) == 0);
    }
    let j2 = key_index(h2, q);
    let g = h2[j2];
    assert(g.key() == q);
    lemma_holding_key_injective(g.id, g.kind, h.id, h.kind);
    assert(g == h);
}

/// Equal canonical lines list as many characters, sites and claims.
#[verifier::spinoff_prover]
proof fn lemma_same_lines_same_counts(w1: WorldModel, w2: WorldModel)
    requires
        canonical_lines(w1) == canonical_lines(w2),
    ensures
        w1.characters.records.len() == w2.characters.records.len(),
        w1.economy.sites.len() == w2.economy.sites.len(),
        w1.social.records.len() == w2.social.records.len(),
{
    let l = canonical_lines(w1);
    let c1 = w1.characters.records.len() as int;
    let s1 = w1.economy.sites.len() as int;
    let q1 = w1.social.records.len() as int;
    let c2 = w2.characters.records.len() as int;
    let s2 = w2.economy.sites.len() as int;
    let q2 = w2.social.records.len() as int;
    lemma_lines_layout(w1);
    lemma_lines_layout(w2);
    if c1 < c2 {
        lemma_character_head(w2.economy, w2.characters.records[c1]);
        assert(l[c1] == character_line(w2.economy, w2.characters.records[c1]));
        if s1 > 0 {
            lemma_site_head(w1.economy.sites[0]);
            assert(l[c1] == site_line(w1.economy.sites[c1 - c1]));
        } else if q1 > 0 {
            lemma_claim_head(w1.social.records[0]);
            assert(l[c1] == claim_line(w1.social.records[c1 - c1 - s1]));
        } else {
            lemma_revisions_head(w1);
        }
    }
    if c2 < c1 {
        lemma_character_head(w1.economy, w1.characters.records[c2]);
        assert(l[c2] == character_line(w1.economy, w1.characters.records[c2]));
        if s2 > 0 {
            lemma_site_head(w2.economy.sites[0]);
            assert(l[c2] == site_line(w2.economy.sites[c2 - c2]));
        } else if q2 > 0 {
            lemma_claim_head(w2.social.records[0]);
            assert(l[c2] == claim_line(w2.social.records[c2 - c2 - s2]));
        } else {
            lemma_revisions_head(w2);
        }
    }
    assert(c1 == c2);
    let c = c1;
    if s1 < s2 {
        lemma_site_head(w2.economy.sites[s1]);
        assert(l[c + s1] == site_line(w2.economy.sites[c + s1 - c]));
        if q1 > 0 {
            lemma_claim_head(w1.social.records[0]);
            assert(l[c + s1] == claim_line(w1.social.records[c + s1 - c - s1]));
        } else {
            lemma_revisions_head(w1);
        }
    }
    if s2 < s1 {
        lemma_site_head(w1.economy.sites[s2]);
        assert(l[c + s2] == site_line(w1.economy.sites[c + s2 - c]));
        if q2 > 0 {
            lemma_claim_head(w2.social.records[0]);
            assert(l[c + s2] == claim_line(w2.social.records[c + s2 - c - s2]));
        } else {
            lemma_revisions_head(w2);
        }
    }
}

/// Equal canonical lines spell the same characters with the same holdings.
#[verifier::spinoff_prover]
proof fn lemma_same_lines_same_characters(w1: WorldModel, w2: WorldModel)
    requires
        canonical_lines(w1) == canonical_lines(w2),
        w1.characters.records.len() == w2.characters.records.len(),
    ensures
        records_bytes(w1.characters.records) == records_bytes(w2.characters.records),
        same_characters_and_holdings(w1, w2),
        same_characters_and_holdings(w2, w1),
{
    let l = canonical_lines(w1);
    lemma_lines_layout(w1);
    lemma_lines_layout(w2);
    let r1 = w1.characters.records;
    let r2 = w2.characters.records;
    assert forall|i: int| 0 <= i < r1.len() implies (#[trigger] r1[i]).id == r2[i].id && r1[i].points == r2[i].points
        && forall|k: ResourceKind| #[trigger] holding_of(w1.economy, r1[i].id, k) == holding_of(
        w2.economy,
        r2[i].id,
        k,
    ) by {
        assert(l[i] == character_line(w1.economy, r1[i]));
        assert(l[i] == character_line(w2.economy, r2[i]));
        lemma_character_line_reads_back(w1.economy, r1[i], w2.economy, r2[i]);
    }
    lemma_records_bytes_pointwise(r1, r2);
    assert forall|i: int| 0 <= i < r1.len() implies #[trigger] r1[i].id == r2[i].id by {
        assert(r1[i].id == r2[i].id);
    }
    assert forall|i: int| 0 <= i < r2.len() implies #[trigger] r2[i].id == r1[i].id by {
        assert(r1[i].id == r2[i].id);
    }
    assert forall|i: int, k: ResourceKind| 0 <= i < r1.len() implies #[trigger] holding_of(w1.economy, r1[i].id, k)
        == holding_of(w2.economy, r1[i].id, k) by {
        assert(r1[i].id == r2[i].id);
    }
    assert forall|i: int, k: ResourceKind| 0 <= i < r2.len() implies #[trigger] holding_of(w2.economy, r2[i].id, k)
        == holding_of(w1.economy, r2[i].id, k) by {
        assert(r1[i].id == r2[i].id);
        assert(holding_of(w1.economy, r1[i].id, k) == holding_of(w2.economy, r2[i].id, k));
    }
}

/// Equal canonical lines spell the same sites and claims.
#[verifier::spinoff_prover]
proof fn lemma_same_lines_same_sites_and_claims(w1: WorldModel, w2: WorldModel)
    requires
        canonical_lines(w1) == canonical_lines(w2),
        w1.characters.records.len() == w2.characters.records.len(),
        w1.economy.sites.len() == w2.economy.sites.len(),
        w1.social.records.len() == w2.social.records.len(),
    ensures
        sites_bytes(w1.economy.sites) == sites_bytes(w2.economy.sites),
        claims_bytes(w1.social.records) == claims_bytes(w2.social.records),
{
    let l = canonical_lines(w1);
    lemma_lines_layout(w1);
    lemma_lines_layout(w2);
    let c = w1.characters.records.len() as int;
    let s = w1.economy.sites.len() as int;
    let t1 = w1.economy.sites;
    let t2 = w2.economy.sites;
    assert forall|i: int| 0 <= i < t1.len() implies (#[trigger] t1[i]).id == t2[i].id && t1[i].tier == t2[i].tier
        && t1[i].kind == t2[i].kind && t1[i].stock == t2[i].stock by {
        assert(l[c + i] == site_line(t1[c + i - c]));
        assert(l[c + i] == site_line(t2[c + i - c]));
        lemma_site_line_reads_back(t1[i], t2[i]);
    }
    lemma_sites_bytes_pointwise(t1, t2);
    let k1 = w1.social.records;
    let k2 = w2.social.records;
    assert forall|i: int| 0 <= i < k1.len() implies (#[trigger] k1[i]).id == k2[i].id && k1[i].holder == k2[i].holder
        && k1[i].site == k2[i].site && k1[i].witnessed == k2[i].witnessed by {
        assert(l[c + s + i] == claim_line(k1[c + s + i - c - s]));
        assert(l[c + s + i] == claim_line(k2[c + s + i - c - s]));
        lemma_claim_line_reads_back(k1[i], k2[i]);
    }
    lemma_claims_bytes_pointwise(k1, k2);
}

/// Two well-formed worlds whose stored holdings all belong to their
/// characters, and whose canonical lines are the same, hash the same
/// bytes.
pub proof fn lemma_same_lines_same_bytes(w1: WorldModel, w2: WorldModel)
    requires
        world_wf(w1),
        world_wf(w2),
        holdings_belong_to_characters(w1),
        holdings_belong_to_characters(w2),
        canonical_lines(w1) == canonical_lines(w2),
    ensures
        world_bytes(w1) == world_bytes(w2),
{
    lemma_same_lines_same_counts(w1, w2);
    lemma_lines_layout(w1);
    lemma_lines_layout(w2);
    let n = (w1.characters.records.len() + w1.economy.sites.len() + w1.social.records.len()) as int;
    assert(canonical_lines(w1)[n] == canonical_lines(w2)[n]);
    lemma_revisions_line_reads_back(w1, w2);
    lemma_same_lines_same_characters(w1, w2);
    lemma_same_lines_same_sites_and_claims(w1, w2);
    let h1 = w1.economy.holdings;
    let h2 = w2.economy.holdings;
    assert forall|key: int| #[trigger] lookup(h1, key) == lookup(h2, key) by {
        if has_key(h1, key) {
            lemma_holding_found(w1, w2, key);
        } else if has_key(h2, key) {
            lemma_holding_found(w2, w1, key);
        }
    }
    lemma_lookup_ext(h1, h2);
}

/// Every stored holding in `h` belongs to a character of `chars`.
pub open spec fn owned_by(h: Seq<HoldingRecord>, chars: CharacterModel) -> bool {
    forall|j: int| 0 <= j < h.len() ==> stamina_of(chars, (#[trigger] h[j]).id) is Some
}

/// Writing a holding of an existing character keeps every stored holding
/// with a character.
proof fn lemma_set_holding_keeps_owned(
    m: EconomyModel,
    chars: CharacterModel,
    id: u64,
    kind: ResourceKind,
    grams: u64,
)
    requires
        holdings_wf(m),
        owned_by(m.holdings, chars),
        stamina_of(chars, id) is Some,
    ensures
        holdings_wf(set_holding_spec(m, id, kind, grams)),
        owned_by(set_holding_spec(m, id, kind, grams).holdings, chars),
{
    lemma_set_holding(m, id, kind, grams);
    let r = set_holding_spec(m, id, kind, grams);
    lemma_sorted_unique(r.holdings);
    lemma_sorted_unique(m.holdings);
    assert forall|j: int| 0 <= j < r.holdings.len() implies stamina_of(chars, (#[trigger] r.holdings[j]).id) is Some by {
        lemma_key_index(r.holdings, j);
        let q = r.holdings[j].key();
        if q != holding_key(id, kind) {
            assert(lookup(m.holdings, q) == Some(r.holdings[j]));
            let i = key_index(m.holdings, q);
            assert(m.holdings[i] == r.holdings[j]);
        }
    }
}

/// A character table whose ids are exactly those of another.
pub open spec fn same_ids(a: CharacterModel, b: CharacterModel) -> bool {
    forall|id: u64| #[trigger] stamina_of(a, id) is Some <==> stamina_of(b, id) is Some
}

pub proof fn lemma_owned_transfers(h: Seq<HoldingRecord>, a: CharacterModel, b: CharacterModel)
    requires
        owned_by(h, a),
        same_ids(a, b),
    ensures
        owned_by(h, b),
{
    assert forall|j: int| 0 <= j < h.len() implies stamina_of(b, (#[trigger] h[j]).id) is Some by {
        assert(stamina_of(a, h[j].id) is Some);
    }
}

/// An extraction into the holding of an existing character keeps every
/// stored holding with a character.
pub proof fn lemma_extract_keeps_owned(m: EconomyModel, chars: CharacterModel, e: ExtractFacts)
    requires
        economy_wf(m),
        owned_by(m.holdings, chars),
        stamina_of(chars, e.to) is Some,
    ensures
        owned_by(apply_extract_spec(m, e).holdings, chars),
{
    let m1 = EconomyModel {
        sites: Seq::new(
            m.sites.len(),
            |i: int|
                if m.sites[i].id == e.site {
                    SiteRecord {
                        stock: (m.sites[i].stock - e.granted) as u64,
                        revision: (m.sites[i].revision + 1) as u64,
                        ..m.sites[i]
                    }
                } else {
                    m.sites[i]
                },
        ),
        ..m
    };
    assert(holding_of(m1, e.to, e.kind) == holding_of(m, e.to, e.kind));
    lemma_set_holding_keeps_owned(m1, chars, e.to, e.kind, (holding_of(m, e.to, e.kind) + e.granted) as u64);
}

/// A transfer between existing characters keeps every stored holding with
/// a character.
pub proof fn lemma_transfer_keeps_owned(m: EconomyModel, chars: CharacterModel, t: TransferFacts)
    requires
        economy_wf(m),
        owned_by(m.holdings, chars),
        stamina_of(chars, t.from) is Some,
        stamina_of(chars, t.to) is Some,
    ensures
        owned_by(apply_transfer_spec(m, t).holdings, chars),
{
    let next_from = (holding_of(m, t.from, t.kind) - t.grams) as u64;
    let next_to = (holding_of(m, t.to, t.kind) + t.grams) as u64;
    lemma_set_holding_keeps_owned(m, chars, t.from, t.kind, next_from);
    let m1 = set_holding_spec(m, t.from, t.kind, next_from);
    let m1w = EconomyModel { revision: (m.revision + 1) as u64, ..m1 };
    lemma_set_holding_keeps_owned(m1w, chars, t.to, t.kind, next_to);
    assert(apply_transfer_spec(m, t) =~= set_holding_spec(m1w, t.to, t.kind, next_to));
}

/// What the hash can see of the claims: id, holder, site and witness
/// flag of each claim, in id order.
pub open spec fn claim_facts(m: SocialModel) -> Seq<(u64, u64, u64, bool)> {
    m.records.map_values(|c: ClaimRecord| (c.id, c.holder, c.site, c.witnessed))
}

proof fn lemma_claims_bytes_layout(s: Seq<ClaimRecord>)
    ensures
        claims_bytes(s).len() == 28 * s.len(),
        forall|i: int|
            0 <= i < s.len() ==> #[trigger] claims_bytes(s).subrange(28 * i, 28 * i + 28) == claim_bytes(s[i]),
    decreases s.len(),
{
    if s.len() > 0 {
        let d = s.drop_last();
        lemma_claims_bytes_layout(d);
        let b = claims_bytes(s);
        assert(b == claims_bytes(d) + claim_bytes(s.last()));
        assert(claim_bytes(s.last()).len() == 28);
        assert forall|i: int| 0 <= i < s.len() implies #[trigger] claims_bytes(s).subrange(28 * i, 28 * i + 28)
            == claim_bytes(s[i]) by {
            if i < d.len() {
                assert(b.subrange(28 * i, 28 * i + 28) =~= claims_bytes(d).subrange(28 * i, 28 * i + 28));
                assert(d[i] == s[i]);
            } else {
                assert(b.subrange(28 * i, 28 * i + 28) =~= claim_bytes(s.last()));
            }
        }
    }
}

proof fn lemma_claim_bytes_injective(c1: ClaimRecord, c2: ClaimRecord)
    requires
        claim_bytes(c1) == claim_bytes(c2),
    ensures
        c1.id == c2.id,
        c1.holder == c2.holder,
        c1.site == c2.site,
        c1.witnessed == c2.witnessed,
{
    let b1 = claim_bytes(c1);
    let b2 = claim_bytes(c2);
    assert(b1.subrange(3, 11) =~= be8(c1.id));
    assert(b2.subrange(3, 11) =~= be8(c2.id));
    assert(b1.subrange(11, 19) =~= be8(c1.holder));
    assert(b2.subrange(11, 19) =~= be8(c2.holder));
    assert(b1.subrange(19, 27) =~= be8(c1.site));
    assert(b2.subrange(19, 27) =~= be8(c2.site));
    lemma_be8_injective(c1.id, c2.id);
    lemma_be8_injective(c1.holder, c2.holder);
    lemma_be8_injective(c1.site, c2.site);
    assert(b1[27] == b2[27]);
}

/// The claims reach the world hash: two worlds with the same characters
/// and economy, but different claim facts or a different social counter,
/// hash different byte streams. Witnessing a claim, which flips only its
/// flag, therefore changes what is hashed.
pub proof fn law_claims_reach_the_hash(w1: WorldModel, w2: WorldModel)
    requires
        w1.characters == w2.characters,
        w1.economy == w2.economy,
        claim_facts(w1.social) != claim_facts(w2.social) || w1.social.revision != w2.social.revision,
    ensures
        world_bytes(w1) != world_bytes(w2),
{
    if world_bytes(w1) == world_bytes(w2) {
        let p = character_bytes(w1.characters) + economy_bytes(w1.economy);
        let s1 = social_bytes(w1.social);
        let s2 = social_bytes(w2.social);
        assert(s1 =~= (p + s1).skip(p.len() as int));
        assert(s2 =~= (p + s2).skip(p.len() as int));
        let k1 = w1.social.records;
        let k2 = w2.social.records;
        lemma_claims_bytes_layout(k1);
        lemma_claims_bytes_layout(k2);
        let tag = seq![0x73u8, 0x6fu8, 0x63u8, 0x2du8, 0x72u8, 0x65u8, 0x76u8];
        assert(s1 == claims_bytes(k1) + tag + be8(w1.social.revision));
        assert(s2 == claims_bytes(k2) + tag + be8(w2.social.revision));
        assert(k1.len() == k2.len());
        let n: int = 28 * (k1.len() as int);
        assert(claims_bytes(k1) =~= s1.take(n));
        assert(claims_bytes(k2) =~= s2.take(n));
        assert(be8(w1.social.revision) =~= s1.skip(n + 7));
        assert(be8(w2.social.revision) =~= s2.skip(n + 7));
        lemma_be8_injective(w1.social.revision, w2.social.revision);
        assert forall|i: int| 0 <= i < k1.len() implies #[trigger] claim_facts(w1.social)[i] == claim_facts(
            w2.social,
        )[i] by {
            assert(claims_bytes(k1).subrange(28 * i, 28 * i + 28) == claim_bytes(k1[i]));
            assert(claims_bytes(k2).subrange(28 * i, 28 * i + 28) == claim_bytes(k2[i]));
            lemma_claim_bytes_injective(k1[i], k2[i]);
        }
        assert(claim_facts(w1.social) =~= claim_facts(w2.social));
    }
}

} // verus!
