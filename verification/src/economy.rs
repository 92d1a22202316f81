//! Economy owner: the single writer of mass — site stock and per-kind
//! holdings.
//!
//! The mutation paths are `validate_extract` / `apply_extract` (site ->
//! holding) and `validate_transfer` / `apply_transfer` (holding ->
//! holding); each is a fallible read-only validation followed by an apply
//! that consumes the proof token by value. A token carries the revisions
//! of the entities it touches — the site it drains and the (character,
//! kind) holdings it fills or empties — so operations on disjoint entities
//! never conflict. Mass is a `u64`, so negative mass is unrepresentable,
//! and a holding that reaches zero is removed rather than stored as zero.

use vstd::prelude::*;

use crate::character::{duplicate_at, first_duplicate, lemma_first_duplicate};
use crate::fnv::{be8, fnv_fold, push_be8, push_bytes, Fnv1a};
use crate::keyed::{
    find_key, find_split, has_key, is_split, key_index, lemma_key_index, lemma_replace_at_key,
    lemma_sorted_unique, lemma_split_exists, lemma_update_same_key, lookup, replace_at_key,
    sorted_by_key, split_index, Keyed,
};
use crate::sums::{
    lemma_sum_concat, lemma_sum_element_bound, lemma_sum_nonneg, lemma_sum_prefix_bound,
    lemma_sum_single, lemma_sum_split_weights, lemma_sum_take_step, lemma_sum_two_elements, lemma_sum_update, seq_sum,
};
use crate::vocab::{
    kind_index, tier_index, CharacterId, FixtureFault, InfraTier, MassGrams, RefusalReason,
    ResourceKind, SiteId,
};

verus! {

/// One site: its tier, the one kind it yields (fixed at seeding), its
/// remaining stock, and the site's revision.
#[derive(Debug, Clone, Copy, PartialEq, Eq, Structural)]
pub struct SiteRecord {
    pub id: u64,
    pub tier: InfraTier,
    pub kind: ResourceKind,
    pub stock: u64,
    pub revision: u64,
}

impl Keyed for SiteRecord {
    open spec fn key(self) -> int {
        self.id as int
    }

    fn key_of(&self) -> (r: u128) {
        self.id as u128
    }
}

/// The table key of a (character, kind) holding: character first, then
/// kind index.
pub open spec fn holding_key(id: u64, kind: ResourceKind) -> int {
    3 * id + kind_index(kind)
}

/// A nonzero holding of one kind by one character.
#[derive(Debug, Clone, Copy, PartialEq, Eq, Structural)]
pub struct HoldingRecord {
    pub id: u64,
    pub kind: ResourceKind,
    pub grams: u64,
}

impl Keyed for HoldingRecord {
    open spec fn key(self) -> int {
        holding_key(self.id, self.kind)
    }

    fn key_of(&self) -> (r: u128) {
        (self.id as u128) * 3 + (self.kind.index() as u128)
    }
}

/// The revision of one (character, kind) holding, kept after the holding
/// empties.
#[derive(Debug, Clone, Copy, PartialEq, Eq, Structural)]
pub struct HoldingRevision {
    pub id: u64,
    pub kind: ResourceKind,
    pub revision: u64,
}

impl Keyed for HoldingRevision {
    open spec fn key(self) -> int {
        holding_key(self.id, self.kind)
    }

    fn key_of(&self) -> (r: u128) {
        (self.id as u128) * 3 + (self.kind.index() as u128)
    }
}

/// Abstract state of the economy owner.
pub struct EconomyModel {
    pub sites: Seq<SiteRecord>,
    pub holdings: Seq<HoldingRecord>,
    pub holding_revisions: Seq<HoldingRevision>,
    pub revision: u64,
}

/// The holdings table is ordered, stores no zero holding, and its
/// revision table is ordered.
pub open spec fn holdings_wf(m: EconomyModel) -> bool {
    &&& sorted_by_key(m.holdings)
    &&& sorted_by_key(m.holding_revisions)
    &&& forall|i: int| 0 <= i < m.holdings.len() ==> (#[trigger] m.holdings[i]).grams > 0
}

pub open spec fn economy_wf(m: EconomyModel) -> bool {
    &&& sorted_by_key(m.sites)
    &&& holdings_wf(m)
    &&& forall|i: int| 0 <= i < m.sites.len() ==> (#[trigger] m.sites[i]).revision <= m.revision
    &&& forall|i: int|
        0 <= i < m.holding_revisions.len() ==> (#[trigger] m.holding_revisions[i]).revision <= 2
            * m.revision
}

/// Room for one more apply: entity counters may advance twice per apply.
pub open spec fn economy_headroom(m: EconomyModel) -> bool {
    m.revision < 0x7fff_ffff_ffff_ffffu64
}

pub open spec fn site_of(m: EconomyModel, id: u64) -> Option<SiteRecord> {
    lookup(m.sites, id as int)
}

pub open spec fn site_revision_of(m: EconomyModel, id: u64) -> u64 {
    match site_of(m, id) {
        Some(s) => s.revision,
        None => 0,
    }
}

/// Grams of `kind` held by `id`; zero when nothing is stored.
pub open spec fn holding_of(m: EconomyModel, id: u64, kind: ResourceKind) -> u64 {
    match lookup(m.holdings, holding_key(id, kind)) {
        Some(h) => h.grams,
        None => 0,
    }
}

pub open spec fn holding_revision_of(m: EconomyModel, id: u64, kind: ResourceKind) -> u64 {
    match lookup(m.holding_revisions, holding_key(id, kind)) {
        Some(h) => h.revision,
        None => 0,
    }
}

/// The stock a seed entry brings.
pub open spec fn seed_weight() -> spec_fn((SiteId, InfraTier, ResourceKind, MassGrams)) -> int {
    |e: (SiteId, InfraTier, ResourceKind, MassGrams)| e.3@ as int
}

/// All the stock a list of seed entries brings.
pub open spec fn seeded_mass(entries: Seq<(SiteId, InfraTier, ResourceKind, MassGrams)>) -> int {
    seq_sum(entries, seed_weight())
}

pub open spec fn stock_weight() -> spec_fn(SiteRecord) -> int {
    |r: SiteRecord| r.stock as int
}

pub open spec fn stock_weight_of(kind: ResourceKind) -> spec_fn(SiteRecord) -> int {
    |r: SiteRecord|
        if r.kind == kind {
            r.stock as int
        } else {
            0
        }
}

pub open spec fn grams_weight() -> spec_fn(HoldingRecord) -> int {
    |r: HoldingRecord| r.grams as int
}

pub open spec fn grams_weight_of(kind: ResourceKind) -> spec_fn(HoldingRecord) -> int {
    |r: HoldingRecord|
        if r.kind == kind {
            r.grams as int
        } else {
            0
        }
}

/// All mass: every site's stock plus every holding.
pub open spec fn total_mass_spec(m: EconomyModel) -> int {
    seq_sum(m.sites, stock_weight()) + seq_sum(m.holdings, grams_weight())
}

/// All mass of one kind, across sites and holdings.
pub open spec fn total_of_kind(m: EconomyModel, kind: ResourceKind) -> int {
    seq_sum(m.sites, stock_weight_of(kind)) + seq_sum(m.holdings, grams_weight_of(kind))
}

/// The single write of a holding: a zero amount removes the entry, any
/// other amount stores it, and the holding's revision advances by one.
pub open spec fn set_holding_spec(m: EconomyModel, id: u64, kind: ResourceKind, grams: u64) -> EconomyModel {
    EconomyModel {
        holdings: replace_at_key(
            m.holdings,
            holding_key(id, kind),
            if grams == 0 {
                None
            } else {
                Some(HoldingRecord { id, kind, grams })
            },
        ),
        holding_revisions: replace_at_key(
            m.holding_revisions,
            holding_key(id, kind),
            Some(
                HoldingRevision {
                    id,
                    kind,
                    revision: (holding_revision_of(m, id, kind) + 1) as u64,
                },
            ),
        ),
        ..m
    }
}

/// What an extraction token records.
#[derive(Debug, Clone, Copy, PartialEq, Eq, Structural)]
pub struct ExtractFacts {
    pub site: u64,
    pub to: u64,
    pub kind: ResourceKind,
    pub granted: u64,
    pub from_site_revision: u64,
    pub from_holding_revision: u64,
}

/// Read-only extraction validation: the site must exist and hold stock;
/// the grant is the request, or whatever remains when stock is short; the
/// kind is the site's.
pub open spec fn validate_extract_spec(m: EconomyModel, site: u64, to: u64, requested: u64) -> Result<
    ExtractFacts,
    RefusalReason,
> {
    match site_of(m, site) {
        None => Err(RefusalReason::UnknownSite),
        Some(s) => if s.stock == 0 {
            Err(RefusalReason::SiteEmpty)
        } else {
            Ok(
                ExtractFacts {
                    site,
                    to,
                    kind: s.kind,
                    granted: if requested < s.stock {
                        requested
                    } else {
                        s.stock
                    },
                    from_site_revision: s.revision,
                    from_holding_revision: holding_revision_of(m, to, s.kind),
                },
            )
        },
    }
}

pub open spec fn extraction_fresh_spec(m: EconomyModel, e: ExtractFacts) -> bool {
    &&& site_revision_of(m, e.site) == e.from_site_revision
    &&& holding_revision_of(m, e.to, e.kind) == e.from_holding_revision
}

/// The economy after an extraction: the site loses exactly the grant and
/// its revision advances, the actor's holding of the token's kind gains
/// exactly the grant, and the owner counter advances.
pub open spec fn apply_extract_spec(m: EconomyModel, e: ExtractFacts) -> EconomyModel {
    let m1 = EconomyModel {
        sites: Seq::new(
            m.sites.len(),
            |i: int|
                if m.sites[i].id == e.site {
                    SiteRecord {
                        stock: (m.sites[i].stock - e.granted) as u64,
                        revision: (m.sites[i].revision + 1) as u64,
                        ..m.sites[i]
                    }
                } else {
                    m.sites[i]
                },
        ),
        ..m
    };
    let m2 = set_holding_spec(m1, e.to, e.kind, (holding_of(m, e.to, e.kind) + e.granted) as u64);
    EconomyModel { revision: (m.revision + 1) as u64, ..m2 }
}

/// What a transfer token records.
#[derive(Debug, Clone, Copy, PartialEq, Eq, Structural)]
pub struct TransferFacts {
    pub from: u64,
    pub to: u64,
    pub kind: ResourceKind,
    pub grams: u64,
    pub from_holding_revision: u64,
    pub to_holding_revision: u64,
}

/// Read-only transfer validation: exact — a giver short of the amount is
/// refused, never partially satisfied.
pub open spec fn validate_transfer_spec(
    m: EconomyModel,
    from: u64,
    to: u64,
    kind: ResourceKind,
    grams: u64,
) -> Result<TransferFacts, RefusalReason> {
    if holding_of(m, from, kind) < grams {
        Err(RefusalReason::InsufficientHolding)
    } else {
        Ok(
            TransferFacts {
                from,
                to,
                kind,
                grams,
                from_holding_revision: holding_revision_of(m, from, kind),
                to_holding_revision: holding_revision_of(m, to, kind),
            },
        )
    }
}

pub open spec fn transfer_fresh_spec(m: EconomyModel, t: TransferFacts) -> bool {
    &&& holding_revision_of(m, t.from, t.kind) == t.from_holding_revision
    &&& holding_revision_of(m, t.to, t.kind) == t.to_holding_revision
}

/// The economy after a transfer. Both new amounts are computed from the
/// holdings before the move; the giver's holding is written first, then
/// the recipient's, and the owner counter advances.
pub open spec fn apply_transfer_spec(m: EconomyModel, t: TransferFacts) -> EconomyModel {
    let next_from = (holding_of(m, t.from, t.kind) - t.grams) as u64;
    let next_to = (holding_of(m, t.to, t.kind) + t.grams) as u64;
    let m1 = set_holding_spec(m, t.from, t.kind, next_from);
    let m2 = set_holding_spec(m1, t.to, t.kind, next_to);
    EconomyModel { revision: (m.revision + 1) as u64, ..m2 }
}

/// An extraction keeps the owner well formed and advances its counter by
/// one.
pub proof fn lemma_apply_extract_keeps_wf(m: EconomyModel, e: ExtractFacts)
    requires
        economy_wf(m),
        economy_headroom(m),
        site_of(m, e.site) matches Some(s) && e.granted <= s.stock,
        holding_of(m, e.to, e.kind) + e.granted <= u64::MAX,
    ensures
        economy_wf(apply_extract_spec(m, e)),
        apply_extract_spec(m, e).revision == m.revision + 1,
{
    lemma_sorted_unique(m.sites);
    let i = key_index(m.sites, e.site as int);
    let state = m.sites[i];
    assert(state.revision <= m.revision);
    let hk = holding_key(e.to, e.kind);
    if has_key(m.holding_revisions, hk) {
        lemma_sorted_unique(m.holding_revisions);
        let j = key_index(m.holding_revisions, hk);
        assert(m.holding_revisions[j].revision <= 2 * m.revision);
    }
    let new_site = SiteRecord {
        stock: (state.stock - e.granted) as u64,
        revision: (state.revision + 1) as u64,
        ..state
    };
    lemma_update_same_key(m.sites, i, new_site);
    let m1 = EconomyModel {
        sites: Seq::new(
            m.sites.len(),
            |q: int|
                if m.sites[q].id == e.site {
                    SiteRecord {
                        stock: (m.sites[q].stock - e.granted) as u64,
                        revision: (m.sites[q].revision + 1) as u64,
                        ..m.sites[q]
                    }
                } else {
                    m.sites[q]
                },
        ),
        ..m
    };
    assert forall|j: int| 0 <= j < m.sites.len() implies m1.sites[j] == m.sites.update(i, new_site)[j] by {
        if j != i {
            assert(m.sites[j].key() != m.sites[i].key());
        }
    }
    assert(m1.sites =~= m.sites.update(i, new_site));
    let next = (holding_of(m, e.to, e.kind) + e.granted) as u64;
    assert(holding_of(m1, e.to, e.kind) == holding_of(m, e.to, e.kind));
    assert(holding_revision_of(m1, e.to, e.kind) == holding_revision_of(m, e.to, e.kind));
    lemma_set_holding(m1, e.to, e.kind, next);
    let m2 = set_holding_spec(m1, e.to, e.kind, next);
    let r = apply_extract_spec(m, e);
    assert(r == EconomyModel { revision: (m.revision + 1) as u64, ..m2 });
    assert forall|q: int| 0 <= q < r.sites.len() implies (#[trigger] r.sites[q]).revision <= r.revision by {
        if q != i {
            assert(r.sites[q] == m.sites[q]);
        }
    }
    assert forall|q: int| 0 <= q < r.holding_revisions.len() implies (#[trigger] r.holding_revisions[q]).revision
        <= 2 * r.revision by {
        lemma_sorted_unique(r.holding_revisions);
        lemma_key_index(r.holding_revisions, q);
        let kk = r.holding_revisions[q].key();
        if kk != hk {
            lemma_sorted_unique(m.holding_revisions);
            let jj = key_index(m.holding_revisions, kk);
            assert(m.holding_revisions[jj].revision <= 2 * m.revision);
        }
    }
}

/// A transfer keeps the owner well formed and advances its counter by one.
pub proof fn lemma_apply_transfer_keeps_wf(m: EconomyModel, t: TransferFacts)
    requires
        economy_wf(m),
        economy_headroom(m),
        t.grams <= holding_of(m, t.from, t.kind),
        holding_of(m, t.to, t.kind) + t.grams <= u64::MAX,
    ensures
        economy_wf(apply_transfer_spec(m, t)),
        apply_transfer_spec(m, t).revision == m.revision + 1,
{
    let next_from = (holding_of(m, t.from, t.kind) - t.grams) as u64;
    let next_to = (holding_of(m, t.to, t.kind) + t.grams) as u64;
    lemma_sorted_unique(m.holding_revisions);
    let kf = holding_key(t.from, t.kind);
    if has_key(m.holding_revisions, kf) {
        let j = key_index(m.holding_revisions, kf);
        assert(m.holding_revisions[j].revision <= 2 * m.revision);
    }
    lemma_set_holding(m, t.from, t.kind, next_from);
    let m1 = set_holding_spec(m, t.from, t.kind, next_from);
    let kt = holding_key(t.to, t.kind);
    if has_key(m.holding_revisions, kt) {
        let j = key_index(m.holding_revisions, kt);
        assert(m.holding_revisions[j].revision <= 2 * m.revision);
    }
    let m1w = EconomyModel { revision: (m.revision + 1) as u64, ..m1 };
    assert forall|q: int| 0 <= q < m1.holding_revisions.len() implies (#[trigger] m1.holding_revisions[q]).revision
        <= 2 * (m.revision + 1) by {
        lemma_sorted_unique(m1.holding_revisions);
        lemma_key_index(m1.holding_revisions, q);
        let kk = m1.holding_revisions[q].key();
        if kk != kf {
            let jj = key_index(m.holding_revisions, kk);
            assert(m.holding_revisions[jj].revision <= 2 * m.revision);
        }
    }
    assert(economy_wf(m1w));
    assert(holding_of(m1w, t.to, t.kind) == holding_of(m1, t.to, t.kind));
    lemma_set_holding(m1w, t.to, t.kind, next_to);
    let r = apply_transfer_spec(m, t);
    assert(r =~= set_holding_spec(m1w, t.to, t.kind, next_to));
    assert forall|q: int| 0 <= q < r.holding_revisions.len() implies (#[trigger] r.holding_revisions[q]).revision
        <= 2 * r.revision by {
        lemma_sorted_unique(r.holding_revisions);
        lemma_key_index(r.holding_revisions, q);
        let kk = r.holding_revisions[q].key();
        if kk != kt {
            lemma_sorted_unique(m1w.holding_revisions);
            let jj = key_index(m1w.holding_revisions, kk);
            assert(m1w.holding_revisions[jj].revision <= 2 * m1w.revision);
        }
    }
}

pub open spec fn site_bytes(s: SiteRecord) -> Seq<u8> {
    seq![0x73u8, 0x69u8, 0x74u8] + be8(s.id) + seq![tier_index(s.tier) as u8, kind_index(s.kind) as u8]
        + be8(s.stock)
}

pub open spec fn sites_bytes(s: Seq<SiteRecord>) -> Seq<u8>
    decreases s.len(),
{
    if s.len() == 0 {
        Seq::empty()
    } else {
        sites_bytes(s.drop_last()) + site_bytes(s.last())
    }
}

pub open spec fn holding_bytes(h: HoldingRecord) -> Seq<u8> {
    seq![0x68u8, 0x6cu8, 0x64u8] + be8(h.id) + seq![kind_index(h.kind) as u8] + be8(h.grams)
}

pub open spec fn holdings_bytes(s: Seq<HoldingRecord>) -> Seq<u8>
    decreases s.len(),
{
    if s.len() == 0 {
        Seq::empty()
    } else {
        holdings_bytes(s.drop_last()) + holding_bytes(s.last())
    }
}

/// The bytes this owner contributes to the world hash: sites in id order,
/// holdings in (character, kind) order, then the owner counter. Entity
/// revisions are bookkeeping and are not hashed.
pub open spec fn economy_bytes(m: EconomyModel) -> Seq<u8> {
    sites_bytes(m.sites) + holdings_bytes(m.holdings) + seq![
        0x65u8,
        0x63u8,
        0x6fu8,
        0x2du8,
        0x72u8,
        0x65u8,
        0x76u8,
    ] + be8(m.revision)
}

/// Every weight used for mass totals is nonnegative.
pub proof fn lemma_weights_nonneg(kind: ResourceKind)
    ensures
        forall|x: SiteRecord| #[trigger] stock_weight()(x) >= 0,
        forall|x: SiteRecord| #[trigger] stock_weight_of(kind)(x) >= 0,
        forall|x: HoldingRecord| #[trigger] grams_weight()(x) >= 0,
        forall|x: HoldingRecord| #[trigger] grams_weight_of(kind)(x) >= 0,
{
}

/// The total of all mass is the sum of the three kinds' totals, and each
/// kind's total is part of it.
pub proof fn lemma_kinds_sum_to_total(m: EconomyModel)
    ensures
        total_mass_spec(m) == total_of_kind(m, ResourceKind::Fodder) + total_of_kind(
            m,
            ResourceKind::Food,
        ) + total_of_kind(m, ResourceKind::Timber),
        forall|k: ResourceKind| 0 <= #[trigger] total_of_kind(m, k) <= total_mass_spec(m),
{
    lemma_sum_split_weights(
        m.sites,
        stock_weight(),
        stock_weight_of(ResourceKind::Fodder),
        stock_weight_of(ResourceKind::Food),
        stock_weight_of(ResourceKind::Timber),
    );
    lemma_sum_split_weights(
        m.holdings,
        grams_weight(),
        grams_weight_of(ResourceKind::Fodder),
        grams_weight_of(ResourceKind::Food),
        grams_weight_of(ResourceKind::Timber),
    );
    lemma_weights_nonneg(ResourceKind::Fodder);
    lemma_weights_nonneg(ResourceKind::Food);
    lemma_weights_nonneg(ResourceKind::Timber);
    lemma_sum_nonneg(m.sites, stock_weight_of(ResourceKind::Fodder));
    lemma_sum_nonneg(m.sites, stock_weight_of(ResourceKind::Food));
    lemma_sum_nonneg(m.sites, stock_weight_of(ResourceKind::Timber));
    lemma_sum_nonneg(m.holdings, grams_weight_of(ResourceKind::Fodder));
    lemma_sum_nonneg(m.holdings, grams_weight_of(ResourceKind::Food));
    lemma_sum_nonneg(m.holdings, grams_weight_of(ResourceKind::Timber));
    assert forall|k: ResourceKind| 0 <= #[trigger] total_of_kind(m, k) <= total_mass_spec(m) by {
        match k {
            ResourceKind::Fodder => {},
            ResourceKind::Food => {},
            ResourceKind::Timber => {},
        }
    }
}

/// A stored holding record carries the character and kind its key names.
pub proof fn lemma_holding_key_injective(id1: u64, k1: ResourceKind, id2: u64, k2: ResourceKind)
    requires
        holding_key(id1, k1) == holding_key(id2, k2),
    ensures
        id1 == id2,
        k1 == k2,
{
    assert(0 <= kind_index(k1) < 3);
    assert(0 <= kind_index(k2) < 3);
    if id1 < id2 {
        assert(3 * id1 + 3 <= 3 * id2);
    } else if id2 < id1 {
        assert(3 * id2 + 3 <= 3 * id1);
    }
    match k1 {
        ResourceKind::Fodder => match k2 {
            ResourceKind::Fodder => {},
            _ => {},
        },
        _ => {},
    }
}

/// The sum over a table after `replace_at_key`.
pub proof fn lemma_replace_sum<T: Keyed>(s: Seq<T>, k: int, x: Option<T>, w: spec_fn(T) -> int)
    requires
        sorted_by_key(s),
    ensures
        seq_sum(replace_at_key(s, k, x), w) == seq_sum(s, w) - (match lookup(s, k) {
            Some(r) => w(r),
            None => 0,
        }) + (match x {
            Some(r) => w(r),
            None => 0,
        }),
{
    let i = split_index(s, k);
    lemma_split_exists(s, k);
    lemma_sorted_unique(s);
    let hit = i < s.len() && s[i].key() == k;
    if hit {
        lemma_key_index(s, i);
        assert(s =~= s.take(i) + seq![s[i]] + s.skip(i + 1));
        lemma_sum_concat(s.take(i) + seq![s[i]], s.skip(i + 1), w);
        lemma_sum_concat(s.take(i), seq![s[i]], w);
        lemma_sum_single(s[i], w);
    } else {
        assert(!has_key(s, k)) by {
            if has_key(s, k) {
                let j = key_index(s, k);
                assert(s[j].key() == k);
                if j < i {
                } else if j > i {
                    assert(s[i].key() < s[j].key());
                }
            }
        }
        assert(s =~= s.take(i) + s.skip(i));
        lemma_sum_concat(s.take(i), s.skip(i), w);
    }
    let rest = if hit {
        s.skip(i + 1)
    } else {
        s.skip(i)
    };
    match x {
        Some(r) => {
            assert(replace_at_key(s, k, x) =~= s.take(i) + seq![r] + rest);
            lemma_sum_concat(s.take(i) + seq![r], rest, w);
            lemma_sum_concat(s.take(i), seq![r], w);
            lemma_sum_single(r, w);
        },
        None => {
            lemma_sum_concat(s.take(i), rest, w);
        },
    }
}

/// A holding weighs at most the holdings' total.
pub proof fn lemma_holding_bounded(m: EconomyModel, id: u64, kind: ResourceKind)
    requires
        economy_wf(m),
    ensures
        holding_of(m, id, kind) <= seq_sum(m.holdings, grams_weight()),
{
    let k = holding_key(id, kind);
    if has_key(m.holdings, k) {
        let j = key_index(m.holdings, k);
        lemma_sum_element_bound(m.holdings, j, grams_weight());
    } else {
        lemma_sum_nonneg(m.holdings, grams_weight());
    }
}

/// Two different holdings together weigh at most the holdings' total.
pub proof fn lemma_two_holdings_bounded(m: EconomyModel, a: u64, b: u64, kind: ResourceKind)
    requires
        economy_wf(m),
        a != b,
    ensures
        holding_of(m, a, kind) + holding_of(m, b, kind) <= seq_sum(m.holdings, grams_weight()),
{
    let ka = holding_key(a, kind);
    let kb = holding_key(b, kind);
    lemma_sum_nonneg(m.holdings, grams_weight());
    if has_key(m.holdings, ka) && has_key(m.holdings, kb) {
        let i = key_index(m.holdings, ka);
        let j = key_index(m.holdings, kb);
        assert(i != j);
        lemma_sum_two_elements(m.holdings, i, j, grams_weight());
    } else if has_key(m.holdings, ka) {
        lemma_holding_bounded(m, a, kind);
    } else if has_key(m.holdings, kb) {
        lemma_holding_bounded(m, b, kind);
    }
}

/// A site's stock weighs at most the sites' total.
pub proof fn lemma_site_bounded(m: EconomyModel, id: u64)
    requires
        economy_wf(m),
        site_of(m, id) is Some,
    ensures
        site_of(m, id).unwrap().stock <= seq_sum(m.sites, stock_weight()),
{
    let j = key_index(m.sites, id as int);
    lemma_sum_element_bound(m.sites, j, stock_weight());
}

/// Writing a holding changes every holdings sum by the difference between
/// the new and the old amount, and nothing else in the model but the
/// holdings and their revisions.
pub proof fn lemma_set_holding(m: EconomyModel, id: u64, kind: ResourceKind, grams: u64)
    requires
        holdings_wf(m),
    ensures
        ({
            let r = set_holding_spec(m, id, kind, grams);
            &&& sorted_by_key(r.holdings)
            &&& sorted_by_key(r.holding_revisions)
            &&& forall|i: int| 0 <= i < r.holdings.len() ==> (#[trigger] r.holdings[i]).grams > 0
            &&& forall|q: int| #[trigger] lookup(r.holdings, q) == if q == holding_key(id, kind) {
                if grams == 0 {
                    None
                } else {
                    Some(HoldingRecord { id, kind, grams })
                }
            } else {
                lookup(m.holdings, q)
            }
            &&& forall|q: int| #[trigger] lookup(r.holding_revisions, q) == if q == holding_key(
                id,
                kind,
            ) {
                Some(
                    HoldingRevision {
                        id,
                        kind,
                        revision: (holding_revision_of(m, id, kind) + 1) as u64,
                    },
                )
            } else {
                lookup(m.holding_revisions, q)
            }
            &&& holding_of(r, id, kind) == grams
            &&& forall|id2: u64, k2: ResourceKind|
                (id2 != id || k2 != kind) ==> #[trigger] holding_of(r, id2, k2) == holding_of(
                    m,
                    id2,
                    k2,
                )
            &&& seq_sum(r.holdings, grams_weight()) == seq_sum(m.holdings, grams_weight()) - holding_of(
                m,
                id,
                kind,
            ) + grams
            &&& forall|k: ResourceKind|
                #[trigger] seq_sum(r.holdings, grams_weight_of(k)) == seq_sum(
                    m.holdings,
                    grams_weight_of(k),
                ) + if k == kind {
                    grams - holding_of(m, id, kind)
                } else {
                    0
                }
        }),
{
    let key = holding_key(id, kind);
    let x = if grams == 0 {
        None
    } else {
        Some(HoldingRecord { id, kind, grams })
    };
    let r = set_holding_spec(m, id, kind, grams);
    lemma_replace_at_key(m.holdings, key, x);
    lemma_replace_at_key(
        m.holding_revisions,
        key,
        Some(HoldingRevision { id, kind, revision: (holding_revision_of(m, id, kind) + 1) as u64 }),
    );
    lemma_sorted_unique(r.holdings);
    assert forall|i: int| 0 <= i < r.holdings.len() implies (#[trigger] r.holdings[i]).grams > 0 by {
        lemma_key_index(r.holdings, i);
        let q = r.holdings[i].key();
        if q != key {
            lemma_sorted_unique(m.holdings);
            let j = key_index(m.holdings, q);
            assert(m.holdings[j].grams > 0);
        }
    }
    assert forall|id2: u64, k2: ResourceKind| (id2 != id || k2 != kind) implies #[trigger] holding_of(
        r,
        id2,
        k2,
    ) == holding_of(m, id2, k2) by {
        if holding_key(id2, k2) == key {
            lemma_holding_key_injective(id2, k2, id, kind);
        }
    }
    let old_rec = lookup(m.holdings, key);
    // the record found under the key is the (id, kind) holding
    if old_rec is Some {
        lemma_sorted_unique(m.holdings);
        let j = key_index(m.holdings, key);
        assert(m.holdings[j].key() == key);
        lemma_holding_key_injective(m.holdings[j].id, m.holdings[j].kind, id, kind);
    }
    lemma_replace_sum(m.holdings, key, x, grams_weight());
    assert forall|k: ResourceKind|
        #[trigger] seq_sum(r.holdings, grams_weight_of(k)) == seq_sum(m.holdings, grams_weight_of(k))
            + if k == kind {
            grams - holding_of(m, id, kind)
        } else {
            0
        } by {
        lemma_replace_sum(m.holdings, key, x, grams_weight_of(k));
    }
}

/// In a well-formed economy every holding revision is at most twice the
/// owner counter.
proof fn lemma_holding_revision_bounded(m: EconomyModel, id: u64, kind: ResourceKind)
    requires
        economy_wf(m),
    ensures
        holding_revision_of(m, id, kind) <= 2 * m.revision,
{
    let k = holding_key(id, kind);
    if has_key(m.holding_revisions, k) {
        let j = key_index(m.holding_revisions, k);
        assert(m.holding_revisions[j].revision <= 2 * m.revision);
    }
}

/// What an extraction writes: its site loses the grant and its revision
/// advances, the (actor, kind) holding revision advances, and every other
/// site and every other holding revision reads as before.
pub proof fn lemma_apply_extract_effect(m: EconomyModel, e: ExtractFacts)
    requires
        economy_wf(m),
        economy_headroom(m),
        site_of(m, e.site) matches Some(s) && e.granted <= s.stock,
    ensures
        ({
            let r = apply_extract_spec(m, e);
            let s = site_of(m, e.site).unwrap();
            &&& site_of(r, e.site) == Some(
                SiteRecord { stock: (s.stock - e.granted) as u64, revision: (s.revision + 1) as u64, ..s },
            )
            &&& s.revision < u64::MAX
            &&& forall|id: u64| id != e.site ==> #[trigger] site_of(r, id) == site_of(m, id)
            &&& holding_revision_of(r, e.to, e.kind) == holding_revision_of(m, e.to, e.kind) + 1
            &&& forall|id: u64, k: ResourceKind|
                (id != e.to || k != e.kind) ==> #[trigger] holding_revision_of(r, id, k)
                    == holding_revision_of(m, id, k)
        }),
{
    lemma_sorted_unique(m.sites);
    let i = key_index(m.sites, e.site as int);
    let state = m.sites[i];
    assert(state.revision <= m.revision);
    let new_site = SiteRecord {
        stock: (state.stock - e.granted) as u64,
        revision: (state.revision + 1) as u64,
        ..state
    };
    lemma_update_same_key(m.sites, i, new_site);
    let m1 = EconomyModel {
        sites: Seq::new(
            m.sites.len(),
            |q: int|
                if m.sites[q].id == e.site {
                    SiteRecord {
                        stock: (m.sites[q].stock - e.granted) as u64,
                        revision: (m.sites[q].revision + 1) as u64,
                        ..m.sites[q]
                    }
                } else {
                    m.sites[q]
                },
        ),
        ..m
    };
    assert forall|j: int| 0 <= j < m.sites.len() implies m1.sites[j] == m.sites.update(i, new_site)[j] by {
        if j != i {
            assert(m.sites[j].key() != m.sites[i].key());
        }
    }
    assert(m1.sites =~= m.sites.update(i, new_site));
    let next = (holding_of(m, e.to, e.kind) + e.granted) as u64;
    assert(holding_revision_of(m1, e.to, e.kind) == holding_revision_of(m, e.to, e.kind));
    lemma_holding_revision_bounded(m, e.to, e.kind);
    lemma_set_holding(m1, e.to, e.kind, next);
    let r = apply_extract_spec(m, e);
    assert(r.sites == m1.sites);
    assert forall|id: u64, k: ResourceKind| (id != e.to || k != e.kind) implies #[trigger] holding_revision_of(
        r,
        id,
        k,
    ) == holding_revision_of(m, id, k) by {
        if holding_key(id, k) == holding_key(e.to, e.kind) {
            lemma_holding_key_injective(id, k, e.to, e.kind);
        }
        assert(lookup(r.holding_revisions, holding_key(id, k)) == lookup(m1.holding_revisions, holding_key(id, k)));
    }
}

/// What a transfer writes: no site changes, both named holding revisions
/// advance, and every other holding revision reads as before.
pub proof fn lemma_apply_transfer_effect(m: EconomyModel, t: TransferFacts)
    requires
        economy_wf(m),
        economy_headroom(m),
        t.grams <= holding_of(m, t.from, t.kind),
        holding_of(m, t.to, t.kind) + t.grams <= u64::MAX,
    ensures
        ({
            let r = apply_transfer_spec(m, t);
            &&& r.sites == m.sites
            &&& holding_revision_of(r, t.from, t.kind) > holding_revision_of(m, t.from, t.kind)
            &&& holding_revision_of(r, t.to, t.kind) > holding_revision_of(m, t.to, t.kind)
            &&& forall|id: u64, k: ResourceKind|
                ((id != t.from && id != t.to) || k != t.kind) ==> #[trigger] holding_revision_of(r, id, k)
                    == holding_revision_of(m, id, k)
        }),
{
    let next_from = (holding_of(m, t.from, t.kind) - t.grams) as u64;
    let next_to = (holding_of(m, t.to, t.kind) + t.grams) as u64;
    lemma_holding_revision_bounded(m, t.from, t.kind);
    lemma_holding_revision_bounded(m, t.to, t.kind);
    lemma_set_holding(m, t.from, t.kind, next_from);
    let m1 = set_holding_spec(m, t.from, t.kind, next_from);
    let m1w = EconomyModel { revision: (m.revision + 1) as u64, ..m1 };
    assert(holdings_wf(m1w));
    lemma_set_holding(m1w, t.to, t.kind, next_to);
    let r = apply_transfer_spec(m, t);
    assert(r =~= set_holding_spec(m1w, t.to, t.kind, next_to));
    assert forall|id: u64, k: ResourceKind| ((id != t.from && id != t.to) || k != t.kind) implies #[trigger] holding_revision_of(
        r,
        id,
        k,
    ) == holding_revision_of(m, id, k) by {
        if holding_key(id, k) == holding_key(t.from, t.kind) {
            lemma_holding_key_injective(id, k, t.from, t.kind);
        }
        if holding_key(id, k) == holding_key(t.to, t.kind) {
            lemma_holding_key_injective(id, k, t.to, t.kind);
        }
        assert(lookup(r.holding_revisions, holding_key(id, k)) == lookup(m1w.holding_revisions, holding_key(id, k)));
        assert(lookup(m1w.holding_revisions, holding_key(id, k)) == lookup(m.holding_revisions, holding_key(id, k)));
    }
}

/// A freshly validated extraction token is fresh against the economy that
/// minted it.
pub proof fn law_minted_extraction_is_fresh(m: EconomyModel, site: u64, to: u64, requested: u64)
    requires
        validate_extract_spec(m, site, to, requested) is Ok,
    ensures
        extraction_fresh_spec(m, validate_extract_spec(m, site, to, requested)->Ok_0),
{
}

/// An extraction token goes stale when a later extraction writes its site
/// or its (actor, kind) holding, and stays fresh across an extraction that
/// touches only other sites and holdings.
pub proof fn law_extraction_stales_only_its_entities(m: EconomyModel, e: ExtractFacts, other: ExtractFacts)
    requires
        economy_wf(m),
        economy_headroom(m),
        extraction_fresh_spec(m, e),
        site_of(m, other.site) matches Some(s) && other.granted <= s.stock,
        holding_of(m, other.to, other.kind) + other.granted <= u64::MAX,
    ensures
        extraction_fresh_spec(apply_extract_spec(m, other), e) <==> (other.site != e.site && (other.to != e.to
            || other.kind != e.kind)),
{
    lemma_apply_extract_effect(m, other);
}

/// An extraction token goes stale when a transfer writes its (actor, kind)
/// holding, and stays fresh across a transfer of other holdings.
pub proof fn law_transfer_stales_only_its_holdings(m: EconomyModel, e: ExtractFacts, t: TransferFacts)
    requires
        economy_wf(m),
        economy_headroom(m),
        extraction_fresh_spec(m, e),
        t.grams <= holding_of(m, t.from, t.kind),
        holding_of(m, t.to, t.kind) + t.grams <= u64::MAX,
    ensures
        extraction_fresh_spec(apply_transfer_spec(m, t), e) <==> !(t.kind == e.kind && (t.from == e.to
            || t.to == e.to)),
{
    lemma_apply_transfer_effect(m, t);
    assert(site_revision_of(apply_transfer_spec(m, t), e.site) == site_revision_of(m, e.site));
}

/// Law: an extraction validated on an economy moves exactly the grant from
/// the site into the holding of the site's kind, so the total of every
/// kind, and the total of all mass, is unchanged.
pub proof fn law_extraction_conserves_mass(m: EconomyModel, site: u64, to: u64, requested: u64)
    requires
        economy_wf(m),
        validate_extract_spec(m, site, to, requested) is Ok,
        holding_of(m, to, validate_extract_spec(m, site, to, requested)->Ok_0.kind)
            + validate_extract_spec(m, site, to, requested)->Ok_0.granted <= u64::MAX,
    ensures
        ({
            let e = validate_extract_spec(m, site, to, requested)->Ok_0;
            let r = apply_extract_spec(m, e);
            &&& total_mass_spec(r) == total_mass_spec(m)
            &&& forall|k: ResourceKind| #[trigger] total_of_kind(r, k) == total_of_kind(m, k)
        }),
{
    let e = validate_extract_spec(m, site, to, requested)->Ok_0;
    let s = site_of(m, site).unwrap();
    lemma_extract_totals(m, e, s);
}

proof fn lemma_extract_totals(m: EconomyModel, e: ExtractFacts, s: SiteRecord)
    requires
        economy_wf(m),
        site_of(m, e.site) == Some(s),
        s.kind == e.kind,
        e.granted <= s.stock,
        holding_of(m, e.to, e.kind) + e.granted <= u64::MAX,
    ensures
        total_mass_spec(apply_extract_spec(m, e)) == total_mass_spec(m),
        forall|k: ResourceKind| #[trigger] total_of_kind(apply_extract_spec(m, e), k) == total_of_kind(m, k),
{
    lemma_sorted_unique(m.sites);
    let i = key_index(m.sites, e.site as int);
    assert(m.sites[i] == s);
    let s2 = SiteRecord { stock: (s.stock - e.granted) as u64, revision: (s.revision + 1) as u64, ..s };
    let new_sites = Seq::new(
        m.sites.len(),
        |q: int|
            if m.sites[q].id == e.site {
                SiteRecord {
                    stock: (m.sites[q].stock - e.granted) as u64,
                    revision: (m.sites[q].revision + 1) as u64,
                    ..m.sites[q]
                }
            } else {
                m.sites[q]
            },
    );
    assert(new_sites =~= m.sites.update(i, s2)) by {
        assert forall|q: int| 0 <= q < m.sites.len() && q != i implies m.sites[q].id != e.site by {
            assert(m.sites[q].key() != m.sites[i].key());
        }
    }
    let m1 = EconomyModel { sites: new_sites, ..m };
    lemma_sum_update(m.sites, i, s2, stock_weight());
    let h = holding_of(m, e.to, e.kind);
    assert(holding_of(m1, e.to, e.kind) == h);
    lemma_set_holding(m1, e.to, e.kind, (h + e.granted) as u64);
    assert forall|k: ResourceKind| #[trigger] total_of_kind(apply_extract_spec(m, e), k) == total_of_kind(m, k) by {
        lemma_sum_update(m.sites, i, s2, stock_weight_of(k));
    }
}

/// Law: a transfer between two different characters validated on an
/// economy moves exactly the named grams of the named kind from the giver
/// to the recipient, so every kind's total, and the total of all mass, is
/// unchanged. (A transfer to oneself computes both sides from the same
/// starting holding and is excluded: the boundary never issues one.)
pub proof fn law_transfer_conserves_mass(
    m: EconomyModel,
    from: u64,
    to: u64,
    kind: ResourceKind,
    grams: u64,
)
    requires
        economy_wf(m),
        total_mass_spec(m) <= u64::MAX,
        from != to,
        validate_transfer_spec(m, from, to, kind, grams) is Ok,
    ensures
        ({
            let t = validate_transfer_spec(m, from, to, kind, grams)->Ok_0;
            let r = apply_transfer_spec(m, t);
            &&& total_mass_spec(r) == total_mass_spec(m)
            &&& forall|k: ResourceKind| #[trigger] total_of_kind(r, k) == total_of_kind(m, k)
            &&& holding_of(r, from, kind) == holding_of(m, from, kind) - grams
            &&& holding_of(r, to, kind) == holding_of(m, to, kind) + grams
            &&& forall|id: u64, k: ResourceKind|
                !(k == kind && (id == from || id == to)) ==> #[trigger] holding_of(r, id, k)
                    == holding_of(m, id, k)
        }),
{
    let t = validate_transfer_spec(m, from, to, kind, grams)->Ok_0;
    lemma_two_holdings_bounded(m, from, to, kind);
    lemma_weights_nonneg(kind);
    lemma_sum_nonneg(m.sites, stock_weight());
    lemma_transfer_totals(m, t);
}

proof fn lemma_transfer_totals(m: EconomyModel, t: TransferFacts)
    requires
        holdings_wf(m),
        t.from != t.to,
        t.grams <= holding_of(m, t.from, t.kind),
        holding_of(m, t.to, t.kind) + t.grams <= u64::MAX,
    ensures
        ({
            let r = apply_transfer_spec(m, t);
            &&& holdings_wf(r)
            &&& r.sites == m.sites
            &&& total_mass_spec(r) == total_mass_spec(m)
            &&& forall|k: ResourceKind| #[trigger] total_of_kind(r, k) == total_of_kind(m, k)
            &&& holding_of(r, t.from, t.kind) == holding_of(m, t.from, t.kind) - t.grams
            &&& holding_of(r, t.to, t.kind) == holding_of(m, t.to, t.kind) + t.grams
            &&& forall|id: u64, k: ResourceKind|
                !(k == t.kind && (id == t.from || id == t.to)) ==> #[trigger] holding_of(r, id, k)
                    == holding_of(m, id, k)
        }),
{
    let hf = holding_of(m, t.from, t.kind);
    let ht = holding_of(m, t.to, t.kind);
    let m1 = set_holding_spec(m, t.from, t.kind, (hf - t.grams) as u64);
    lemma_set_holding(m, t.from, t.kind, (hf - t.grams) as u64);
    assert(holding_of(m1, t.to, t.kind) == ht);
    lemma_set_holding(m1, t.to, t.kind, (ht + t.grams) as u64);
    let r = apply_transfer_spec(m, t);
    assert forall|k: ResourceKind| #[trigger] total_of_kind(r, k) == total_of_kind(m, k) by {}
    assert forall|id: u64, k: ResourceKind|
        !(k == t.kind && (id == t.from || id == t.to)) implies #[trigger] holding_of(r, id, k) == holding_of(
        m,
        id,
        k,
    ) by {
        assert(holding_of(m1, id, k) == holding_of(m, id, k));
    }
}

pub struct EconomyOwner {
    sites: Vec<SiteRecord>,
    holdings: Vec<HoldingRecord>,
    holding_revisions: Vec<HoldingRevision>,
    revision: u64,
}

/// Proof that a transfer was validated against specific revisions of the
/// two holdings it touches, with `grams <= giver's holding` at validation.
pub struct Transfer {
    from: CharacterId,
    to: CharacterId,
    kind: ResourceKind,
    grams: MassGrams,
    from_holding_revision: u64,
    to_holding_revision: u64,
}

impl Transfer {
    pub closed spec fn view(&self) -> TransferFacts {
        TransferFacts {
            from: self.from.0,
            to: self.to.0,
            kind: self.kind,
            grams: self.grams@,
            from_holding_revision: self.from_holding_revision,
            to_holding_revision: self.to_holding_revision,
        }
    }

    pub fn grams(&self) -> (r: MassGrams)
        ensures
            r@ == self@.grams,
    {
        self.grams
    }

    pub fn kind(&self) -> (r: ResourceKind)
        ensures
            r == self@.kind,
    {
        self.kind
    }
}

/// Proof that an extraction was validated against specific revisions of
/// the site it drains and the holding it fills, with `granted <= stock`
/// at validation.
pub struct Extraction {
    site: SiteId,
    to: CharacterId,
    kind: ResourceKind,
    granted: MassGrams,
    from_site_revision: u64,
    from_holding_revision: u64,
}

impl Extraction {
    pub closed spec fn view(&self) -> ExtractFacts {
        ExtractFacts {
            site: self.site.0,
            to: self.to.0,
            kind: self.kind,
            granted: self.granted@,
            from_site_revision: self.from_site_revision,
            from_holding_revision: self.from_holding_revision,
        }
    }

    pub fn granted(&self) -> (r: MassGrams)
        ensures
            r@ == self@.granted,
    {
        self.granted
    }

    /// The kind the drained site yields — never a caller's choice.
    pub fn kind(&self) -> (r: ResourceKind)
        ensures
            r == self@.kind,
    {
        self.kind
    }
}

impl EconomyOwner {
    pub closed spec fn view(&self) -> EconomyModel {
        EconomyModel {
            sites: self.sites@,
            holdings: self.holdings@,
            holding_revisions: self.holding_revisions@,
            revision: self.revision,
        }
    }

    pub open spec fn wf(&self) -> bool {
        economy_wf(self@)
    }

    /// Seeding rejects duplicate IDs — no silent last-write-wins. On
    /// success every seeded site is stored as given with revision zero,
    /// nothing is held, and the counter is zero.
    pub fn seed_sites<const N: usize>(entries: [(SiteId, InfraTier, ResourceKind, MassGrams); N]) -> (r:
        Result<Self, FixtureFault>)
        ensures
            ({
                let ids = entries@.map_values(
                    |e: (SiteId, InfraTier, ResourceKind, MassGrams)| e.0.0,
                );
                match first_duplicate(ids) {
                    Some(j) => r == Err::<Self, FixtureFault>(FixtureFault::DuplicateSite(entries@[j].0)),
                    None => r is Ok,
                }
            }),
            r matches Ok(o) ==> {
                &&& o.wf()
                &&& o@.revision == 0
                &&& o@.holdings.len() == 0
                &&& o@.holding_revisions.len() == 0
                &&& total_mass_spec(o@) == seeded_mass(entries@)
                &&& forall|k: u64|
                    #[trigger] site_of(o@, k) == if exists|i: int|
                        0 <= i < N && (#[trigger] entries@[i]).0.0 == k {
                        let e = entries@[choose|i: int| 0 <= i < N && (#[trigger] entries@[i]).0.0 == k];
                        Some(SiteRecord { id: k, tier: e.1, kind: e.2, stock: e.3@, revision: 0 })
                    } else {
                        None::<SiteRecord>
                    }
            },
    {
        let ghost ids = entries@.map_values(|e: (SiteId, InfraTier, ResourceKind, MassGrams)| e.0.0);
        let mut records: Vec<SiteRecord> = Vec::new();
        let mut n: usize = 0;
        while n < N
            invariant
                n <= N,
                ids == entries@.map_values(|e: (SiteId, InfraTier, ResourceKind, MassGrams)| e.0.0),
                sorted_by_key(records@),
                seq_sum(records@, stock_weight()) == seeded_mass(entries@.take(n as int)),
                forall|i: int| 0 <= i < records@.len() ==> (#[trigger] records@[i]).revision == 0,
                forall|k: int| 0 <= k < n ==> !duplicate_at(ids, k),
                forall|k: u64|
                    #[trigger] lookup(records@, k as int) == if exists|i: int|
                        0 <= i < n && (#[trigger] entries@[i]).0.0 == k {
                        let e = entries@[choose|i: int| 0 <= i < n && (#[trigger] entries@[i]).0.0 == k];
                        Some(SiteRecord { id: k, tier: e.1, kind: e.2, stock: e.3@, revision: 0 })
                    } else {
                        None::<SiteRecord>
                    },
            decreases N - n,
        {
            let (id, tier, kind, stock) = entries[n];
            let found = find_key(&records, id.0 as u128);
            if found.is_some() {
                proof {
                    let i = choose|i: int| 0 <= i < n && (#[trigger] entries@[i]).0.0 == id.0;
                    assert(ids[i] == ids[n as int]);
                    assert(duplicate_at(ids, n as int));
                    lemma_first_duplicate(ids, n as int);
                }
                return Err(FixtureFault::DuplicateSite(id));
            }
            let pos = find_split(&records, id.0 as u128);
            let rec = SiteRecord { id: id.0, tier, kind, stock: stock.grams(), revision: 0 };
            let ghost before = records@;
            proof {
                lemma_replace_at_key(before, id.0 as int, Some(rec));
                lemma_sorted_unique(before);
                if pos < before.len() && before[pos as int].key() == id.0 {
                    assert(has_key(before, id.0 as int));
                }
            }
            records.insert(pos, rec);
            proof {
                assert(records@ =~= replace_at_key(before, id.0 as int, Some(rec)));
                lemma_replace_sum(before, id.0 as int, Some(rec), stock_weight());
                lemma_sum_take_step(entries@, n as int, seed_weight());
                assert(!duplicate_at(ids, n as int)) by {
                    if duplicate_at(ids, n as int) {
                        let i = choose|i: int| 0 <= i < n && ids[i] == ids[n as int];
                        assert(entries@[i].0.0 == id.0);
                        assert(lookup(before, id.0 as int) is Some);
                    }
                }
                assert forall|i: int| 0 <= i < records@.len() implies (#[trigger] records@[i]).revision
                    == 0 by {
                    if i < pos {
                        assert(records@[i] == before[i]);
                    } else if i > pos {
                        assert(records@[i] == before[i - 1]);
                    }
                }
                assert forall|k: u64|
                    #[trigger] lookup(records@, k as int) == if exists|i: int|
                        0 <= i < n + 1 && (#[trigger] entries@[i]).0.0 == k {
                        let e = entries@[choose|i: int|
                            0 <= i < n + 1 && (#[trigger] entries@[i]).0.0 == k];
                        Some(SiteRecord { id: k, tier: e.1, kind: e.2, stock: e.3@, revision: 0 })
                    } else {
                        None::<SiteRecord>
                    } by {
                    if k == id.0 {
                        assert(entries@[n as int].0.0 == k);
                        let c = choose|i: int| 0 <= i < n + 1 && (#[trigger] entries@[i]).0.0 == k;
                        if c < n {
                            assert(ids[c] == ids[n as int]);
                            assert(duplicate_at(ids, n as int));
                        }
                    } else {
                        if exists|i: int| 0 <= i < n + 1 && (#[trigger] entries@[i]).0.0 == k {
                            let c = choose|i: int| 0 <= i < n + 1 && (#[trigger] entries@[i]).0.0 == k;
                            assert(c < n);
                            assert(exists|i: int| 0 <= i < n && (#[trigger] entries@[i]).0.0 == k);
                            let c2 = choose|i: int| 0 <= i < n && (#[trigger] entries@[i]).0.0 == k;
                            if c != c2 {
                                if c < c2 {
                                    assert(ids[c] == ids[c2]);
                                    assert(duplicate_at(ids, c2));
                                } else {
                                    assert(ids[c2] == ids[c]);
                                    assert(duplicate_at(ids, c));
                                }
                            }
                        } else {
                            assert(!exists|i: int| 0 <= i < n && (#[trigger] entries@[i]).0.0 == k);
                        }
                    }
                }
            }
            n = n + 1;
        }
        proof {
            assert forall|j: int| 0 <= j < ids.len() implies !#[trigger] duplicate_at(ids, j) by {}
            assert(first_duplicate(ids) is None);
            assert(entries@.take(N as int) =~= entries@);
        }
        let owner = EconomyOwner {
            sites: records,
            holdings: Vec::new(),
            holding_revisions: Vec::new(),
            revision: 0,
        };
        proof {
            assert forall|k: u64| #[trigger] site_of(owner@, k) == lookup(records@, k as int) by {}
        }
        Ok(owner)
    }

    fn find_site(&self, site: SiteId) -> (r: Option<usize>)
        requires
            self.wf(),
        ensures
            r is None <==> site_of(self@, site.0) is None,
            r matches Some(i) ==> i < self@.sites.len() && site_of(self@, site.0) == Some(
                self@.sites[i as int],
            ) && self@.sites[i as int].id == site.0,
    {
        proof {
            lemma_sorted_unique(self@.sites);
        }
        find_key(&self.sites, site.0 as u128)
    }

    fn site_revision(&self, site: SiteId) -> (r: u64)
        requires
            self.wf(),
        ensures
            r == site_revision_of(self@, site.0),
    {
        match self.find_site(site) {
            Some(i) => self.sites[i].revision,
            None => 0,
        }
    }

    fn holding_revision(&self, id: CharacterId, kind: ResourceKind) -> (r: u64)
        requires
            self.wf(),
        ensures
            r == holding_revision_of(self@, id.0, kind),
    {
        proof {
            lemma_sorted_unique(self@.holding_revisions);
        }
        let key = (id.0 as u128) * 3 + (kind.index() as u128);
        match find_key(&self.holding_revisions, key) {
            Some(i) => self.holding_revisions[i].revision,
            None => 0,
        }
    }

    /// The one write path for a holding. Normalizes zero to absence, so no
    /// state that prints identically can hash differently.
    fn set_holding(&mut self, id: CharacterId, kind: ResourceKind, grams: MassGrams)
        requires
            old(self).wf(),
            holding_revision_of(old(self)@, id.0, kind) < u64::MAX,
        ensures
            final(self)@ == set_holding_spec(old(self)@, id.0, kind, grams@),
    {
        let ghost m = self@;
        let key = (id.0 as u128) * 3 + (kind.index() as u128);
        let ghost k = holding_key(id.0, kind);
        let new_rev = self.holding_revision(id, kind) + 1;
        let pos = find_split(&self.holdings, key);
        proof {
            lemma_split_exists(m.holdings, k);
        }
        let hit = pos < self.holdings.len() && self.holdings[pos].key_of() == key;
        let g = grams.grams();
        if g == 0 {
            if hit {
                self.holdings.remove(pos);
            }
        } else {
            let rec = HoldingRecord { id: id.0, kind, grams: g };
            if hit {
                self.holdings.set(pos, rec);
            } else {
                self.holdings.insert(pos, rec);
            }
        }
        proof {
            let x = if g == 0 {
                None
            } else {
                Some(HoldingRecord { id: id.0, kind, grams: g })
            };
            assert(self.holdings@ =~= replace_at_key(m.holdings, k, x));
        }
        let rpos = find_split(&self.holding_revisions, key);
        proof {
            lemma_split_exists(m.holding_revisions, k);
        }
        let rhit = rpos < self.holding_revisions.len() && self.holding_revisions[rpos].key_of() == key;
        let rrec = HoldingRevision { id: id.0, kind, revision: new_rev };
        if rhit {
            self.holding_revisions.set(rpos, rrec);
        } else {
            self.holding_revisions.insert(rpos, rrec);
        }
        proof {
            assert(self.holding_revisions@ =~= replace_at_key(m.holding_revisions, k, Some(rrec)));
            assert(self@ =~= set_holding_spec(m, id.0, kind, grams@));
        }
    }

    /// True when the token still matches the revisions of both entities it
    /// touches.
    pub fn extraction_is_fresh(&self, extraction: &Extraction) -> (r: bool)
        requires
            self.wf(),
        ensures
            r == extraction_fresh_spec(self@, extraction@),
    {
        self.site_revision(extraction.site) == extraction.from_site_revision
            && self.holding_revision(extraction.to, extraction.kind) == extraction.from_holding_revision
    }

    pub fn tier(&self, site: SiteId) -> (r: Option<InfraTier>)
        requires
            self.wf(),
        ensures
            r is Some <==> site_of(self@, site.0) is Some,
            r matches Some(t) ==> site_of(self@, site.0).unwrap().tier == t,
    {
        match self.find_site(site) {
            Some(i) => Some(self.sites[i].tier),
            None => None,
        }
    }

    pub fn site_kind(&self, site: SiteId) -> (r: Option<ResourceKind>)
        requires
            self.wf(),
        ensures
            r is Some <==> site_of(self@, site.0) is Some,
            r matches Some(k) ==> site_of(self@, site.0).unwrap().kind == k,
    {
        match self.find_site(site) {
            Some(i) => Some(self.sites[i].kind),
            None => None,
        }
    }

    pub fn holding(&self, id: CharacterId, kind: ResourceKind) -> (r: MassGrams)
        requires
            self.wf(),
        ensures
            r@ == holding_of(self@, id.0, kind),
    {
        proof {
            lemma_sorted_unique(self@.holdings);
        }
        let key = (id.0 as u128) * 3 + (kind.index() as u128);
        match find_key(&self.holdings, key) {
            Some(i) => MassGrams::new(self.holdings[i].grams),
            None => MassGrams::new(0),
        }
    }

    /// Every stored holding as (character, kind, grams), in (character,
    /// kind) order. Zero-valued entries are never stored.
    pub fn holdings_iter(&self) -> (r: Vec<(CharacterId, ResourceKind, MassGrams)>)
        ensures
            r@.len() == self@.holdings.len(),
            forall|i: int|
                0 <= i < r@.len() ==> {
                    let h = self@.holdings[i];
                    &&& (#[trigger] r@[i]).0.0 == h.id
                    &&& r@[i].1 == h.kind
                    &&& r@[i].2@ == h.grams
                },
    {
        let mut out: Vec<(CharacterId, ResourceKind, MassGrams)> = Vec::new();
        let mut i: usize = 0;
        while i < self.holdings.len()
            invariant
                i <= self@.holdings.len(),
                out@.len() == i,
                forall|j: int|
                    0 <= j < i ==> {
                        let h = self@.holdings[j];
                        &&& (#[trigger] out@[j]).0.0 == h.id
                        &&& out@[j].1 == h.kind
                        &&& out@[j].2@ == h.grams
                    },
            decreases self@.holdings.len() - i,
        {
            let h = self.holdings[i];
            out.push((CharacterId(h.id), h.kind, MassGrams::new(h.grams)));
            i = i + 1;
        }
        out
    }

    pub fn revision(&self) -> (r: u64)
        ensures
            r == self@.revision,
    {
        self.revision
    }

    /// Every site as (site, tier, kind, stock), in site-id order.
    pub fn sites_iter(&self) -> (r: Vec<(SiteId, InfraTier, ResourceKind, MassGrams)>)
        ensures
            r@.len() == self@.sites.len(),
            forall|i: int|
                0 <= i < r@.len() ==> {
                    let s = self@.sites[i];
                    &&& (#[trigger] r@[i]).0.0 == s.id
                    &&& r@[i].1 == s.tier
                    &&& r@[i].2 == s.kind
                    &&& r@[i].3@ == s.stock
                },
    {
        let mut out: Vec<(SiteId, InfraTier, ResourceKind, MassGrams)> = Vec::new();
        let mut i: usize = 0;
        while i < self.sites.len()
            invariant
                i <= self@.sites.len(),
                out@.len() == i,
                forall|j: int|
                    0 <= j < i ==> {
                        let s = self@.sites[j];
                        &&& (#[trigger] out@[j]).0.0 == s.id
                        &&& out@[j].1 == s.tier
                        &&& out@[j].2 == s.kind
                        &&& out@[j].3@ == s.stock
                    },
            decreases self@.sites.len() - i,
        {
            let s = self.sites[i];
            out.push((SiteId(s.id), s.tier, s.kind, MassGrams::new(s.stock)));
            i = i + 1;
        }
        out
    }

    /// Exact total mass across sites and holdings, or `None` when it does
    /// not fit the canonical `u64` representation.
    pub fn checked_total_mass(&self) -> (r: Option<MassGrams>)
        ensures
            r is Some <==> total_mass_spec(self@) <= u64::MAX,
            r matches Some(t) ==> t@ == total_mass_spec(self@),
    {
        let ghost sw = stock_weight();
        let ghost hw = grams_weight();
        proof {
            lemma_weights_nonneg(ResourceKind::Fodder);
        }
        let mut acc: u64 = 0;
        let mut i: usize = 0;
        while i < self.sites.len()
            invariant
                sw == stock_weight(),
                i <= self@.sites.len(),
                acc == seq_sum(self@.sites.take(i as int), sw),
            decreases self@.sites.len() - i,
        {
            proof {
                lemma_sum_take_step(self@.sites, i as int, sw);
            }
            match acc.checked_add(self.sites[i].stock) {
                Some(v) => acc = v,
                None => {
                    proof {
                        lemma_weights_nonneg(ResourceKind::Fodder);
                        lemma_sum_prefix_bound(self@.sites, i as int + 1, sw);
                        lemma_sum_nonneg(self@.holdings, grams_weight());
                    }
                    return None;
                },
            }
            i = i + 1;
        }
        proof {
            assert(self@.sites.take(self@.sites.len() as int) =~= self@.sites);
        }
        let ghost sites_total = acc as int;
        let mut j: usize = 0;
        while j < self.holdings.len()
            invariant
                hw == grams_weight(),
                sites_total == seq_sum(self@.sites, stock_weight()),
                j <= self@.holdings.len(),
                acc == sites_total + seq_sum(self@.holdings.take(j as int), hw),
            decreases self@.holdings.len() - j,
        {
            proof {
                lemma_sum_take_step(self@.holdings, j as int, hw);
            }
            match acc.checked_add(self.holdings[j].grams) {
                Some(v) => acc = v,
                None => {
                    proof {
                        lemma_weights_nonneg(ResourceKind::Fodder);
                        lemma_sum_prefix_bound(self@.holdings, j as int + 1, hw);
                    }
                    return None;
                },
            }
            j = j + 1;
        }
        proof {
            assert(self@.holdings.take(self@.holdings.len() as int) =~= self@.holdings);
        }
        Some(MassGrams::new(acc))
    }

    /// Exact total of one kind across sites and holdings, or `None` when it
    /// does not fit the canonical `u64` representation.
    pub fn checked_total_mass_of(&self, kind: ResourceKind) -> (r: Option<MassGrams>)
        ensures
            r is Some <==> total_of_kind(self@, kind) <= u64::MAX,
            r matches Some(t) ==> t@ == total_of_kind(self@, kind),
    {
        let ghost sw = stock_weight_of(kind);
        let ghost hw = grams_weight_of(kind);
        proof {
            lemma_weights_nonneg(kind);
        }
        let mut acc: u64 = 0;
        let mut i: usize = 0;
        while i < self.sites.len()
            invariant
                sw == stock_weight_of(kind),
                i <= self@.sites.len(),
                acc == seq_sum(self@.sites.take(i as int), sw),
            decreases self@.sites.len() - i,
        {
            proof {
                lemma_sum_take_step(self@.sites, i as int, sw);
            }
            let s = self.sites[i];
            if s.kind == kind {
                match acc.checked_add(s.stock) {
                    Some(v) => acc = v,
                    None => {
                        proof {
                            lemma_weights_nonneg(kind);
                            lemma_sum_prefix_bound(self@.sites, i as int + 1, sw);
                            lemma_sum_nonneg(self@.holdings, grams_weight_of(kind));
                        }
                        return None;
                    },
                }
            }
            i = i + 1;
        }
        proof {
            assert(self@.sites.take(self@.sites.len() as int) =~= self@.sites);
        }
        let ghost sites_total = acc as int;
        let mut j: usize = 0;
        while j < self.holdings.len()
            invariant
                hw == grams_weight_of(kind),
                sites_total == seq_sum(self@.sites, stock_weight_of(kind)),
                j <= self@.holdings.len(),
                acc == sites_total + seq_sum(self@.holdings.take(j as int), hw),
            decreases self@.holdings.len() - j,
        {
            proof {
                lemma_sum_take_step(self@.holdings, j as int, hw);
            }
            let h = self.holdings[j];
            if h.kind == kind {
                match acc.checked_add(h.grams) {
                    Some(v) => acc = v,
                    None => {
                        proof {
                            lemma_weights_nonneg(kind);
                            lemma_sum_prefix_bound(self@.holdings, j as int + 1, hw);
                        }
                        return None;
                    },
                }
            }
            j = j + 1;
        }
        proof {
            assert(self@.holdings.take(self@.holdings.len() as int) =~= self@.holdings);
        }
        Some(MassGrams::new(acc))
    }

    /// Total of one kind in a world whose totals fit `u64` (every world
    /// that passed coherence validation).
    pub fn total_mass_of(&self, kind: ResourceKind) -> (r: MassGrams)
        requires
            total_of_kind(self@, kind) <= u64::MAX,
        ensures
            r@ == total_of_kind(self@, kind),
    {
        match self.checked_total_mass_of(kind) {
            Some(t) => t,
            None => MassGrams::new(0),
        }
    }

    /// Total mass in a world whose total fits `u64`.
    pub fn total_mass(&self) -> (r: MassGrams)
        requires
            total_mass_spec(self@) <= u64::MAX,
        ensures
            r@ == total_mass_spec(self@),
    {
        match self.checked_total_mass() {
            Some(t) => t,
            None => MassGrams::new(0),
        }
    }

    /// Read-only validation: the site must exist and hold stock. Grants the
    /// full request or, when stock is short, whatever remains.
    pub fn validate_extract(&self, site: SiteId, to: CharacterId, requested: MassGrams) -> (r: Result<
        Extraction,
        RefusalReason,
    >)
        requires
            self.wf(),
        ensures
            match r {
                Ok(e) => validate_extract_spec(self@, site.0, to.0, requested@) == Ok::<
                    ExtractFacts,
                    RefusalReason,
                >(e@),
                Err(x) => validate_extract_spec(self@, site.0, to.0, requested@) == Err::<
                    ExtractFacts,
                    RefusalReason,
                >(x),
            },
    {
        match self.find_site(site) {
            None => Err(RefusalReason::UnknownSite),
            Some(i) => {
                let state = self.sites[i];
                if state.stock == 0 {
                    return Err(RefusalReason::SiteEmpty);
                }
                let req = requested.grams();
                let granted = if req < state.stock {
                    req
                } else {
                    state.stock
                };
                let kind = state.kind;
                Ok(
                    Extraction {
                        site,
                        to,
                        kind,
                        granted: MassGrams::new(granted),
                        from_site_revision: state.revision,
                        from_holding_revision: self.holding_revision(to, kind),
                    },
                )
            },
        }
    }

    /// Consumes the token by value. The token must be fresh, its site must
    /// hold at least the grant, and the filled holding must stay
    /// representable; for a validated token in a world whose total mass
    /// fits `u64`, all three hold.
    pub fn apply_extract(&mut self, extraction: Extraction)
        requires
            old(self).wf(),
            economy_headroom(old(self)@),
            extraction_fresh_spec(old(self)@, extraction@),
            site_of(old(self)@, extraction@.site) matches Some(s) && extraction@.granted <= s.stock,
            holding_of(old(self)@, extraction@.to, extraction@.kind) + extraction@.granted <= u64::MAX,
        ensures
            final(self).wf(),
            final(self)@ == apply_extract_spec(old(self)@, extraction@),
    {
        let ghost m = self@;
        let e = extraction;
        let i = match self.find_site(e.site) {
            Some(i) => i,
            None => {
                proof {
                    assert(false);
                }
                return;
            },
        };
        let state = self.sites[i];
        let held = self.holding(e.to, e.kind);
        let next_holding = held.grams() + e.granted.grams();
        proof {
            lemma_sorted_unique(m.sites);
            assert(m.sites[i as int].revision <= m.revision);
            let hk = holding_key(e.to.0, e.kind);
            if has_key(m.holding_revisions, hk) {
                lemma_sorted_unique(m.holding_revisions);
                let j = key_index(m.holding_revisions, hk);
                assert(m.holding_revisions[j].revision <= 2 * m.revision);
            }
        }
        let new_site = SiteRecord {
            stock: state.stock - e.granted.grams(),
            revision: state.revision + 1,
            ..state
        };
        self.sites.set(i, new_site);
        self.revision = self.revision + 1;
        let ghost m1 = self@;
        proof {
            lemma_update_same_key(m.sites, i as int, new_site);
            let target = apply_extract_spec(m, e@);
            assert forall|j: int| 0 <= j < m.sites.len() implies #[trigger] self@.sites[j] == Seq::new(
                m.sites.len(),
                |q: int|
                    if m.sites[q].id == e@.site {
                        SiteRecord {
                            stock: (m.sites[q].stock - e@.granted) as u64,
                            revision: (m.sites[q].revision + 1) as u64,
                            ..m.sites[q]
                        }
                    } else {
                        m.sites[q]
                    },
            )[j] by {
                if j != i {
                    assert(m.sites[j].key() != m.sites[i as int].key());
                }
            }
            assert(economy_wf(m1)) by {
                assert forall|q: int| 0 <= q < m1.sites.len() implies (#[trigger] m1.sites[q]).revision
                    <= m1.revision by {
                    if q != i {
                        assert(m1.sites[q] == m.sites[q]);
                    }
                }
                assert forall|q: int|
                    0 <= q < m1.holding_revisions.len() implies (#[trigger] m1.holding_revisions[q]).revision
                    <= 2 * m1.revision by {
                    assert(m1.holding_revisions[q] == m.holding_revisions[q]);
                }
            }
        }
        self.set_holding(e.to, e.kind, MassGrams::new(next_holding));
        proof {
            let target = apply_extract_spec(m, e@);
            assert(self@.sites =~= target.sites);
            assert(holding_of(m1, e@.to, e@.kind) == holding_of(m, e@.to, e@.kind));
            assert(holding_revision_of(m1, e@.to, e@.kind) == holding_revision_of(m, e@.to, e@.kind));
            assert(self@ =~= target);
            lemma_set_holding(m1, e@.to, e@.kind, next_holding);
            assert forall|q: int| 0 <= q < self@.sites.len() implies (#[trigger] self@.sites[q]).revision
                <= self@.revision by {
                if q != i {
                    assert(self@.sites[q] == m.sites[q]);
                }
            }
            assert forall|q: int|
                0 <= q < self@.holding_revisions.len() implies (#[trigger] self@.holding_revisions[q]).revision
                <= 2 * self@.revision by {
                lemma_sorted_unique(self@.holding_revisions);
                lemma_key_index(self@.holding_revisions, q);
                let kk = self@.holding_revisions[q].key();
                if kk != holding_key(e@.to, e@.kind) {
                    lemma_sorted_unique(m.holding_revisions);
                    let jj = key_index(m.holding_revisions, kk);
                    assert(m.holding_revisions[jj].revision <= 2 * m.revision);
                }
            }
        }
    }

    /// True when the token still matches the revisions of both holdings it
    /// touches.
    pub fn transfer_is_fresh(&self, transfer: &Transfer) -> (r: bool)
        requires
            self.wf(),
        ensures
            r == transfer_fresh_spec(self@, transfer@),
    {
        self.holding_revision(transfer.from, transfer.kind) == transfer.from_holding_revision
            && self.holding_revision(transfer.to, transfer.kind) == transfer.to_holding_revision
    }

    /// Read-only transfer validation. Exact: a giver short of `grams` is
    /// refused, never partially satisfied.
    pub fn validate_transfer(
        &self,
        from: CharacterId,
        to: CharacterId,
        kind: ResourceKind,
        grams: MassGrams,
    ) -> (r: Result<Transfer, RefusalReason>)
        requires
            self.wf(),
        ensures
            match r {
                Ok(t) => validate_transfer_spec(self@, from.0, to.0, kind, grams@) == Ok::<
                    TransferFacts,
                    RefusalReason,
                >(t@),
                Err(x) => validate_transfer_spec(self@, from.0, to.0, kind, grams@) == Err::<
                    TransferFacts,
                    RefusalReason,
                >(x),
            },
    {
        let held = self.holding(from, kind);
        if held.checked_sub(grams).is_none() {
            return Err(RefusalReason::InsufficientHolding);
        }
        Ok(
            Transfer {
                from,
                to,
                kind,
                grams,
                from_holding_revision: self.holding_revision(from, kind),
                to_holding_revision: self.holding_revision(to, kind),
            },
        )
    }

    /// Consumes the token by value. The token must be fresh, the giver must
    /// hold the amount, and the recipient's new holding must stay
    /// representable.
    pub fn apply_transfer(&mut self, transfer: Transfer)
        requires
            old(self).wf(),
            economy_headroom(old(self)@),
            transfer_fresh_spec(old(self)@, transfer@),
            transfer@.grams <= holding_of(old(self)@, transfer@.from, transfer@.kind),
            holding_of(old(self)@, transfer@.to, transfer@.kind) + transfer@.grams <= u64::MAX,
        ensures
            final(self).wf(),
            final(self)@ == apply_transfer_spec(old(self)@, transfer@),
    {
        let ghost m = self@;
        let t = transfer;
        let next_from = self.holding(t.from, t.kind).grams() - t.grams.grams();
        let next_to = self.holding(t.to, t.kind).grams() + t.grams.grams();
        proof {
            lemma_sorted_unique(m.holding_revisions);
            let kf = holding_key(t.from.0, t.kind);
            if has_key(m.holding_revisions, kf) {
                let j = key_index(m.holding_revisions, kf);
                assert(m.holding_revisions[j].revision <= 2 * m.revision);
            }
        }
        self.set_holding(t.from, t.kind, MassGrams::new(next_from));
        let ghost m1 = self@;
        proof {
            lemma_set_holding(m, t.from.0, t.kind, next_from);
            let kt = holding_key(t.to.0, t.kind);
            if has_key(m.holding_revisions, kt) {
                let j = key_index(m.holding_revisions, kt);
                assert(m.holding_revisions[j].revision <= 2 * m.revision);
            }
            assert(economy_wf(EconomyModel { revision: (m.revision + 1) as u64, ..m1 })) by {
                assert forall|q: int| 0 <= q < m1.holding_revisions.len() implies (#[trigger] m1.holding_revisions[q]).revision
                    <= 2 * (m.revision + 1) by {
                    lemma_sorted_unique(m1.holding_revisions);
                    lemma_key_index(m1.holding_revisions, q);
                    let kk = m1.holding_revisions[q].key();
                    if kk != holding_key(t.from.0, t.kind) {
                        let jj = key_index(m.holding_revisions, kk);
                        assert(m.holding_revisions[jj].revision <= 2 * m.revision);
                    }
                }
            }
            assert(holding_revision_of(m1, t.to.0, t.kind) < u64::MAX);
        }
        let ghost m1w = EconomyModel { revision: (m.revision + 1) as u64, ..m1 };
        self.revision = self.revision + 1;
        self.set_holding(t.to, t.kind, MassGrams::new(next_to));
        proof {
            lemma_set_holding(m1w, t.to.0, t.kind, next_to);
            assert(self@ =~= apply_transfer_spec(m, t@));
            assert forall|q: int|
                0 <= q < self@.holding_revisions.len() implies (#[trigger] self@.holding_revisions[q]).revision
                <= 2 * self@.revision by {
                lemma_sorted_unique(self@.holding_revisions);
                lemma_key_index(self@.holding_revisions, q);
                let kk = self@.holding_revisions[q].key();
                if kk != holding_key(t.to.0, t.kind) {
                    lemma_sorted_unique(m1w.holding_revisions);
                    let jj = key_index(m1w.holding_revisions, kk);
                    assert(m1w.holding_revisions[jj].revision <= 2 * m1w.revision);
                }
            }
        }
    }

    /// An independent copy of this owner's state.
    pub fn duplicate(&self) -> (r: Self)
        ensures
            r@ == self@,
    {
        let mut sites = Vec::new();
        let mut i: usize = 0;
        while i < self.sites.len()
            invariant
                i <= self.sites@.len(),
                sites@ == self.sites@.take(i as int),
            decreases self.sites@.len() - i,
        {
            sites.push(self.sites[i]);
            proof {
                assert(self.sites@.take(i as int + 1) =~= self.sites@.take(i as int).push(self.sites@[i as int]));
            }
            i = i + 1;
        }
        assert(self.sites@.take(self.sites@.len() as int) =~= self.sites@);
        let mut holdings = Vec::new();
        let mut i: usize = 0;
        while i < self.holdings.len()
            invariant
                i <= self.holdings@.len(),
                holdings@ == self.holdings@.take(i as int),
            decreases self.holdings@.len() - i,
        {
            holdings.push(self.holdings[i]);
            proof {
                assert(self.holdings@.take(i as int + 1) =~= self.holdings@.take(i as int).push(self.holdings@[i as int]));
            }
            i = i + 1;
        }
        assert(self.holdings@.take(self.holdings@.len() as int) =~= self.holdings@);
        let mut holding_revisions = Vec::new();
        let mut i: usize = 0;
        while i < self.holding_revisions.len()
            invariant
                i <= self.holding_revisions@.len(),
                holding_revisions@ == self.holding_revisions@.take(i as int),
            decreases self.holding_revisions@.len() - i,
        {
            holding_revisions.push(self.holding_revisions[i]);
            proof {
                assert(self.holding_revisions@.take(i as int + 1) =~= self.holding_revisions@.take(i as int).push(self.holding_revisions@[i as int]));
            }
            i = i + 1;
        }
        assert(self.holding_revisions@.take(self.holding_revisions@.len() as int) =~= self.holding_revisions@);
        EconomyOwner { sites, holdings, holding_revisions, revision: self.revision }
    }

    /// Appends the bytes this owner contributes to the world hash.
    pub fn encode_into(&self, out: &mut Vec<u8>)
        ensures
            final(out)@ == old(out)@ + economy_bytes(self@),
    {
        let ghost start = out@;
        let mut i: usize = 0;
        while i < self.sites.len()
            invariant
                i <= self@.sites.len(),
                out@ == start + sites_bytes(self@.sites.take(i as int)),
            decreases self@.sites.len() - i,
        {
            let s = self.sites[i];
            push_bytes(out, &[0x73u8, 0x69u8, 0x74u8]);
            push_be8(out, s.id);
            out.push(s.tier.index() as u8);
            out.push(s.kind.index() as u8);
            push_be8(out, s.stock);
            proof {
                let t = self@.sites.take(i as int + 1);
                assert(t.drop_last() =~= self@.sites.take(i as int));
                assert(t.last() == s);
                assert(out@ =~= start + sites_bytes(t));
            }
            i = i + 1;
        }
        proof {
            assert(self@.sites.take(self@.sites.len() as int) =~= self@.sites);
        }
        let ghost mid = out@;
        let mut j: usize = 0;
        while j < self.holdings.len()
            invariant
                j <= self@.holdings.len(),
                out@ == mid + holdings_bytes(self@.holdings.take(j as int)),
            decreases self@.holdings.len() - j,
        {
            let h = self.holdings[j];
            push_bytes(out, &[0x68u8, 0x6cu8, 0x64u8]);
            push_be8(out, h.id);
            out.push(h.kind.index() as u8);
            push_be8(out, h.grams);
            proof {
                let t = self@.holdings.take(j as int + 1);
                assert(t.drop_last() =~= self@.holdings.take(j as int));
                assert(t.last() == h);
                assert(out@ =~= mid + holdings_bytes(t));
            }
            j = j + 1;
        }
        proof {
            assert(self@.holdings.take(self@.holdings.len() as int) =~= self@.holdings);
        }
        push_bytes(out, &[0x65u8, 0x63u8, 0x6fu8, 0x2du8, 0x72u8, 0x65u8, 0x76u8]);
        push_be8(out, self.revision);
        proof {
            assert(out@ =~= start + economy_bytes(self@));
        }
    }

    /// Feeds this owner's canonical bytes to `hasher`.
    pub fn hash_into(&self, hasher: &mut Fnv1a)
        ensures
            final(hasher)@ == fnv_fold(old(hasher)@, economy_bytes(self@)),
    {
        let mut bytes: Vec<u8> = Vec::new();
        self.encode_into(&mut bytes);
        assert(bytes@ =~= economy_bytes(self@));
        hasher.update(bytes.as_slice());
    }
}

} // verus!
