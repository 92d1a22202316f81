//! Independent re-interpretation of the grammar, used by oracles 9 and 10.
//!
//! The shadow deliberately does not use the owners, the boundary
//! orchestrator, `Stamina::band` or any receipt field: it keeps its own
//! tables of plain integers, its own band thresholds, and reads only the
//! shared spec tables. Its tables are kept in key order with no zero
//! holding stored, so two states that print alike compare alike.

use vstd::prelude::*;

use crate::boundary::settled;
use crate::character::StaminaRecord;
use crate::command::{Command, GatherCommand, GiveCommand, WitnessCommand};
use crate::economy::{
    holding_key, lemma_replace_sum, lemma_weights_nonneg, total_mass_spec, HoldingRecord,
    SiteRecord,
};
use crate::grammar::{GIVE_COST, STAMINA_COST_BY_BAND, WITNESS_COST, YIELD_TABLE_GRAMS};
use crate::keyed::{
    find_key, has_key, key_index, lemma_key_index, lemma_replace_at_key, lemma_sorted_unique,
    lookup, replace_at_key, replace_keyed, sorted_by_key, Keyed,
};
use crate::receipt::{character_num, Receipt};
use crate::social::ClaimRecord;
use crate::sums::{lemma_sum_element_bound, lemma_sum_map, lemma_sum_nonneg, seq_sum};
use crate::text::str_equals;
use crate::vocab::{
    band_index, kind_index, outcome_code, outcome_reason_code, tier_index, verb_code,
};
use crate::world::{World, WorldModel};

verus! {

/// One character's stamina, as the shadow tracks it.
#[derive(Debug, Clone, Copy, PartialEq, Eq, Structural)]
pub struct ShadowStamina {
    pub id: u64,
    pub points: u8,
}

impl Keyed for ShadowStamina {
    open spec fn key(self) -> int {
        self.id as int
    }

    fn key_of(&self) -> (r: u128) {
        self.id as u128
    }
}

/// One holding, keyed by (character, kind index).
#[derive(Debug, Clone, Copy, PartialEq, Eq, Structural)]
pub struct ShadowHolding {
    pub id: u64,
    pub kind: usize,
    pub grams: u64,
}

impl Keyed for ShadowHolding {
    open spec fn key(self) -> int {
        3 * self.id + self.kind
    }

    fn key_of(&self) -> (r: u128) {
        (self.id as u128) * 3 + (self.kind as u128)
    }
}

/// One site: tier index, kind index and stock.
#[derive(Debug, Clone, Copy, PartialEq, Eq, Structural)]
pub struct ShadowSite {
    pub id: u64,
    pub tier: usize,
    pub kind: usize,
    pub stock: u64,
}

impl Keyed for ShadowSite {
    open spec fn key(self) -> int {
        self.id as int
    }

    fn key_of(&self) -> (r: u128) {
        self.id as u128
    }
}

/// One claim: holder, site and whether it is witnessed.
#[derive(Debug, Clone, Copy, PartialEq, Eq, Structural)]
pub struct ShadowClaim {
    pub id: u64,
    pub holder: u64,
    pub site: u64,
    pub witnessed: bool,
}

impl Keyed for ShadowClaim {
    open spec fn key(self) -> int {
        self.id as int
    }

    fn key_of(&self) -> (r: u128) {
        self.id as u128
    }
}

/// The shadow's four tables.
pub struct ShadowModel {
    pub stamina: Seq<ShadowStamina>,
    pub holdings: Seq<ShadowHolding>,
    pub sites: Seq<ShadowSite>,
    pub claims: Seq<ShadowClaim>,
}

pub open spec fn stamina_row(r: StaminaRecord) -> ShadowStamina {
    ShadowStamina { id: r.id, points: r.points }
}

pub open spec fn holding_row(h: HoldingRecord) -> ShadowHolding {
    ShadowHolding { id: h.id, kind: kind_index(h.kind) as usize, grams: h.grams }
}

pub open spec fn site_row(s: SiteRecord) -> ShadowSite {
    ShadowSite {
        id: s.id,
        tier: tier_index(s.tier) as usize,
        kind: kind_index(s.kind) as usize,
        stock: s.stock,
    }
}

pub open spec fn claim_row(c: ClaimRecord) -> ShadowClaim {
    ShadowClaim { id: c.id, holder: c.holder, site: c.site, witnessed: c.witnessed }
}

/// What the shadow reads of a world: every table, in the owners' key order,
/// reduced to plain integers.
pub open spec fn shadow_of_world(w: WorldModel) -> ShadowModel {
    ShadowModel {
        stamina: w.characters.records.map_values(|r: StaminaRecord| stamina_row(r)),
        holdings: w.economy.holdings.map_values(|h: HoldingRecord| holding_row(h)),
        sites: w.economy.sites.map_values(|s: SiteRecord| site_row(s)),
        claims: w.social.records.map_values(|c: ClaimRecord| claim_row(c)),
    }
}

pub open spec fn stock_of() -> spec_fn(ShadowSite) -> int {
    |s: ShadowSite| s.stock as int
}

pub open spec fn grams_of() -> spec_fn(ShadowHolding) -> int {
    |h: ShadowHolding| h.grams as int
}

/// All mass the shadow tracks: site stock plus holdings.
pub open spec fn shadow_total(m: ShadowModel) -> int {
    seq_sum(m.sites, stock_of()) + seq_sum(m.holdings, grams_of())
}

/// Tables in key order, holdings nonzero with a kind index, sites with a
/// tier and kind index, and a total that fits `u64`.
pub open spec fn shadow_wf(m: ShadowModel) -> bool {
    &&& sorted_by_key(m.stamina)
    &&& sorted_by_key(m.holdings)
    &&& sorted_by_key(m.sites)
    &&& sorted_by_key(m.claims)
    &&& forall|i: int| 0 <= i < m.holdings.len() ==> (#[trigger] m.holdings[i]).kind < 3 && m.holdings[i].grams > 0
    &&& forall|i: int| 0 <= i < m.sites.len() ==> (#[trigger] m.sites[i]).tier < 4 && m.sites[i].kind < 3
    &&& shadow_total(m) <= u64::MAX
}

/// A settled world reads as a well-formed shadow with the same total mass.
pub proof fn lemma_shadow_of_world(w: WorldModel)
    requires
        settled(w),
    ensures
        shadow_wf(shadow_of_world(w)),
        shadow_total(shadow_of_world(w)) == total_mass_spec(w.economy),
{
    let m = shadow_of_world(w);
    assert forall|i: int, j: int| 0 <= i < j < m.stamina.len() implies #[trigger] m.stamina[i].key()
        < #[trigger] m.stamina[j].key() by {
        assert(w.characters.records[i].key() < w.characters.records[j].key());
    }
    assert forall|i: int, j: int| 0 <= i < j < m.holdings.len() implies #[trigger] m.holdings[i].key()
        < #[trigger] m.holdings[j].key() by {
        assert(w.economy.holdings[i].key() < w.economy.holdings[j].key());
    }
    assert forall|i: int, j: int| 0 <= i < j < m.sites.len() implies #[trigger] m.sites[i].key()
        < #[trigger] m.sites[j].key() by {
        assert(w.economy.sites[i].key() < w.economy.sites[j].key());
    }
    assert forall|i: int, j: int| 0 <= i < j < m.claims.len() implies #[trigger] m.claims[i].key()
        < #[trigger] m.claims[j].key() by {
        assert(w.social.records[i].key() < w.social.records[j].key());
    }
    assert forall|i: int| 0 <= i < m.holdings.len() implies (#[trigger] m.holdings[i]).kind < 3
        && m.holdings[i].grams > 0 by {
        assert(w.economy.holdings[i].grams > 0);
    }
    lemma_sum_map(
        w.economy.sites,
        |s: SiteRecord| site_row(s),
        stock_of(),
        crate::economy::stock_weight(),
    );
    lemma_sum_map(
        w.economy.holdings,
        |h: HoldingRecord| holding_row(h),
        grams_of(),
        crate::economy::grams_weight(),
    );
}

/// The shadow evaluator's state.
pub struct ShadowState {
    stamina: Vec<ShadowStamina>,
    holdings: Vec<ShadowHolding>,
    sites: Vec<ShadowSite>,
    claims: Vec<ShadowClaim>,
}

impl ShadowState {
    pub closed spec fn view(&self) -> ShadowModel {
        ShadowModel {
            stamina: self.stamina@,
            holdings: self.holdings@,
            sites: self.sites@,
            claims: self.claims@,
        }
    }

    /// Reads only the fixture's seeded data, through the owners' read-only
    /// listings.
    pub fn from_fixture(fixture: &World) -> (r: ShadowState)
        requires
            fixture.wf(),
        ensures
            r@ == shadow_of_world(fixture@),
            settled(fixture@) ==> shadow_wf(r@),
    {
        proof {
            if settled(fixture@) {
                lemma_shadow_of_world(fixture@);
            }
        }
        let ghost target = shadow_of_world(fixture@);
        let chars = fixture.characters.iter();
        let mut stamina: Vec<ShadowStamina> = Vec::new();
        let mut i: usize = 0;
        while i < chars.len()
            invariant
                i <= chars@.len(),
                chars@.len() == target.stamina.len(),
                target == shadow_of_world(fixture@),
                forall|j: int|
                    0 <= j < chars@.len() ==> (#[trigger] chars@[j]).0.0 == fixture@.characters.records[j].id
                        && chars@[j].1@ == fixture@.characters.records[j].points,
                stamina@ == target.stamina.take(i as int),
            decreases chars@.len() - i,
        {
            let (id, s) = chars[i];
            stamina.push(ShadowStamina { id: id.0, points: s.points() });
            proof {
                assert(stamina@ =~= target.stamina.take(i as int + 1));
            }
            i = i + 1;
        }
        let held = fixture.economy.holdings_iter();
        let mut holdings: Vec<ShadowHolding> = Vec::new();
        let mut i: usize = 0;
        while i < held.len()
            invariant
                i <= held@.len(),
                held@.len() == target.holdings.len(),
                target == shadow_of_world(fixture@),
                forall|j: int|
                    0 <= j < held@.len() ==> {
                        let h = fixture@.economy.holdings[j];
                        &&& (#[trigger] held@[j]).0.0 == h.id
                        &&& held@[j].1 == h.kind
                        &&& held@[j].2@ == h.grams
                    },
                holdings@ == target.holdings.take(i as int),
            decreases held@.len() - i,
        {
            let (id, kind, grams) = held[i];
            holdings.push(ShadowHolding { id: id.0, kind: kind.index(), grams: grams.grams() });
            proof {
                assert(holdings@ =~= target.holdings.take(i as int + 1));
            }
            i = i + 1;
        }
        let listed = fixture.economy.sites_iter();
        let mut sites: Vec<ShadowSite> = Vec::new();
        let mut i: usize = 0;
        while i < listed.len()
            invariant
                i <= listed@.len(),
                listed@.len() == target.sites.len(),
                target == shadow_of_world(fixture@),
                forall|j: int|
                    0 <= j < listed@.len() ==> {
                        let s = fixture@.economy.sites[j];
                        &&& (#[trigger] listed@[j]).0.0 == s.id
                        &&& listed@[j].1 == s.tier
                        &&& listed@[j].2 == s.kind
                        &&& listed@[j].3@ == s.stock
                    },
                sites@ == target.sites.take(i as int),
            decreases listed@.len() - i,
        {
            let (id, tier, kind, stock) = listed[i];
            sites.push(ShadowSite { id: id.0, tier: tier.index(), kind: kind.index(), stock: stock.grams() });
            proof {
                assert(sites@ =~= target.sites.take(i as int + 1));
            }
            i = i + 1;
        }
        let seeded = fixture.social.claims_iter();
        let mut claims: Vec<ShadowClaim> = Vec::new();
        let mut i: usize = 0;
        while i < seeded.len()
            invariant
                i <= seeded@.len(),
                seeded@.len() == target.claims.len(),
                target == shadow_of_world(fixture@),
                forall|j: int|
                    0 <= j < seeded@.len() ==> {
                        let c = fixture@.social.records[j];
                        &&& (#[trigger] seeded@[j]).0.0 == c.id
                        &&& seeded@[j].1.0 == c.holder
                        &&& seeded@[j].2.0 == c.site
                        &&& seeded@[j].3 == c.witnessed
                    },
                claims@ == target.claims.take(i as int),
            decreases seeded@.len() - i,
        {
            let (id, holder, site, witnessed) = seeded[i];
            claims.push(ShadowClaim { id: id.0, holder: holder.0, site: site.0, witnessed });
            proof {
                assert(claims@ =~= target.claims.take(i as int + 1));
            }
            i = i + 1;
        }
        proof {
            assert(stamina@ =~= target.stamina);
            assert(holdings@ =~= target.holdings);
            assert(sites@ =~= target.sites);
            assert(claims@ =~= target.claims);
        }
        ShadowState { stamina, holdings, sites, claims }
    }
}

// ---------------------------------------------------------------------------
// Expectations
// ---------------------------------------------------------------------------

/// What the shadow expects one receipt to say, recomputed from the fixture
/// and the commands alone.
pub struct Expectation {
    pub verb: Seq<char>,
    pub outcome: Seq<char>,
    pub reason: Seq<char>,
    pub witnessed: bool,
    pub transfer_witness: Option<u64>,
    pub spent: u8,
    pub mass: u64,
    pub band: Option<usize>,
    pub tier: Option<usize>,
    /// Compared on every receipt, refusals included: the kind is derived
    /// from the fixture, so a receipt naming a kind its site does not
    /// yield is caught whether or not mass moved.
    pub kind: Option<usize>,
}

/// The exec form of an expectation.
pub struct ShadowExpectation {
    verb_code: &'static str,
    outcome_code: &'static str,
    reason_code: &'static str,
    witnessed: bool,
    transfer_witness: Option<u64>,
    spent: u8,
    mass_grams: u64,
    band_index: Option<usize>,
    tier_index: Option<usize>,
    kind_index: Option<usize>,
}

impl ShadowExpectation {
    pub closed spec fn view(&self) -> Expectation {
        Expectation {
            verb: self.verb_code@,
            outcome: self.outcome_code@,
            reason: self.reason_code@,
            witnessed: self.witnessed,
            transfer_witness: self.transfer_witness,
            spent: self.spent,
            mass: self.mass_grams,
            band: self.band_index,
            tier: self.tier_index,
            kind: self.kind_index,
        }
    }
}

/// Whether a receipt says what the shadow expected: the codes, the claim
/// and transfer witnesses, the stamina spent, the mass moved, the kind
/// (always), and the band and tier (where the shadow expects a yield).
pub open spec fn matches_spec(e: Expectation, r: Receipt) -> bool {
    &&& verb_code(r.verb) == e.verb
    &&& outcome_code(r.outcome) == e.outcome
    &&& outcome_reason_code(r.outcome) == e.reason
    &&& r.claim_witnessed == e.witnessed
    &&& character_num(r.transfer_witness) == e.transfer_witness
    &&& r.stamina_spent == e.spent
    &&& r.mass_moved@ == e.mass
    &&& match (e.band, e.tier) {
        (Some(b), Some(t)) => (r.band matches Some(x) && band_index(x) == b) && (r.tier matches Some(y)
            && tier_index(y) == t),
        _ => true,
    }
    &&& match r.kind {
        Some(k) => e.kind == Some(kind_index(k) as usize),
        None => e.kind is None,
    }
}

impl ShadowExpectation {
    pub fn matches(&self, receipt: &Receipt) -> (r: bool)
        ensures
            r == matches_spec(self@, *receipt),
    {
        let codes_match = str_equals(receipt.verb.code(), self.verb_code)
            && str_equals(receipt.outcome.code(), self.outcome_code)
            && str_equals(receipt.outcome.reason_code(), self.reason_code)
            && receipt.claim_witnessed == self.witnessed
            && match (receipt.transfer_witness, self.transfer_witness) {
            (Some(x), Some(y)) => x.0 == y,
            (None, None) => true,
            _ => false,
        } && receipt.stamina_spent == self.spent && receipt.mass_moved.grams() == self.mass_grams;
        let cell_match = match (self.band_index, self.tier_index) {
            (Some(band), Some(tier)) => {
                let band_ok = match receipt.band {
                    Some(b) => b.index() == band,
                    None => false,
                };
                let tier_ok = match receipt.tier {
                    Some(t) => t.index() == tier,
                    None => false,
                };
                band_ok && tier_ok
            },
            _ => true,
        };
        let kind_match = match (receipt.kind, self.kind_index) {
            (Some(k), Some(i)) => k.index() == i,
            (None, None) => true,
            _ => false,
        };
        codes_match && cell_match && kind_match
    }
}

// ---------------------------------------------------------------------------
// Steps
// ---------------------------------------------------------------------------

/// The shadow's own band thresholds.
pub open spec fn shadow_band(points: u8) -> usize {
    if points <= 9 {
        0
    } else if points <= 39 {
        1
    } else if points <= 79 {
        2
    } else {
        3
    }
}

pub fn shadow_band_index(points: u8) -> (r: usize)
    ensures
        r == shadow_band(points),
{
    if points <= 9 {
        0
    } else if points <= 39 {
        1
    } else if points <= 79 {
        2
    } else {
        3
    }
}

pub open spec fn stamina_at(m: ShadowModel, id: u64) -> Option<u8> {
    match lookup(m.stamina, id as int) {
        Some(r) => Some(r.points),
        None => None,
    }
}

pub open spec fn claim_at(m: ShadowModel, id: u64) -> Option<ShadowClaim> {
    lookup(m.claims, id as int)
}

pub open spec fn site_at(m: ShadowModel, id: u64) -> Option<ShadowSite> {
    lookup(m.sites, id as int)
}

pub open spec fn holding_slot(id: u64, kind: usize) -> int {
    3 * id + kind
}

pub open spec fn held_in(hs: Seq<ShadowHolding>, id: u64, kind: usize) -> u64 {
    match lookup(hs, holding_slot(id, kind)) {
        Some(h) => h.grams,
        None => 0,
    }
}

pub open spec fn set_stamina(t: Seq<ShadowStamina>, id: u64, points: u8) -> Seq<ShadowStamina> {
    replace_at_key(t, id as int, Some(ShadowStamina { id, points }))
}

/// Adds `grams` to a holding, removing it when it sums to zero.
pub open spec fn add_holding_spec(hs: Seq<ShadowHolding>, id: u64, kind: usize, grams: u64) -> Seq<
    ShadowHolding,
> {
    let next = held_in(hs, id, kind) + grams;
    replace_at_key(
        hs,
        holding_slot(id, kind),
        if next == 0 {
            None
        } else {
            Some(ShadowHolding { id, kind, grams: next as u64 })
        },
    )
}

pub open spec fn refusal(
    verb: Seq<char>,
    reason: Seq<char>,
    witnessed: bool,
    transfer_witness: Option<u64>,
    kind: Option<usize>,
) -> Expectation {
    Expectation {
        verb,
        outcome: "refused"@,
        reason,
        witnessed,
        transfer_witness,
        spent: 0,
        mass: 0,
        band: None,
        tier: None,
        kind,
    }
}

/// The shadow's gather: social gate, then character (own bands, exhausted
/// gate, exact cost), then economy and the 4x4 cell; the grant lands in
/// the holding of the site's kind.
pub open spec fn shadow_gather_spec(m: ShadowModel, cmd: GatherCommand) -> (ShadowModel, Expectation) {
    let witnessed = match claim_at(m, cmd.claim.0) {
        Some(c) => c.witnessed,
        None => false,
    };
    let site_kind = match site_at(m, cmd.site.0) {
        Some(s) => Some(s.kind),
        None => None,
    };
    let refuse = |reason: Seq<char>| (m, refusal("gather"@, reason, witnessed, None, site_kind));
    match claim_at(m, cmd.claim.0) {
        None => refuse("unknown_claim"@),
        Some(c) => if c.holder != cmd.actor.0 {
            refuse("claim_not_held_by_actor"@)
        } else if c.site != cmd.site.0 {
            refuse("claim_site_mismatch"@)
        } else if !c.witnessed {
            refuse("claim_not_witnessed"@)
        } else {
            match stamina_at(m, cmd.actor.0) {
                None => refuse("unknown_actor"@),
                Some(points) => {
                    let band = shadow_band(points);
                    let cost = STAMINA_COST_BY_BAND[band as int];
                    if band == 0 {
                        refuse("actor_exhausted"@)
                    } else if points < cost {
                        refuse("insufficient_stamina"@)
                    } else {
                        match site_at(m, cmd.site.0) {
                            None => refuse("unknown_site"@),
                            Some(s) => if s.stock == 0 {
                                refuse("site_empty"@)
                            } else {
                                let requested = YIELD_TABLE_GRAMS[band as int][s.tier as int];
                                let granted = if requested < s.stock {
                                    requested
                                } else {
                                    s.stock
                                };
                                let next = ShadowModel {
                                    stamina: set_stamina(m.stamina, cmd.actor.0, (points - cost) as u8),
                                    holdings: add_holding_spec(m.holdings, cmd.actor.0, s.kind, granted),
                                    sites: replace_at_key(
                                        m.sites,
                                        cmd.site.0 as int,
                                        Some(ShadowSite { stock: (s.stock - granted) as u64, ..s }),
                                    ),
                                    claims: m.claims,
                                };
                                let partial = granted < requested;
                                (
                                    next,
                                    Expectation {
                                        verb: "gather"@,
                                        outcome: if partial {
                                            "partial"@
                                        } else {
                                            "accepted"@
                                        },
                                        reason: if partial {
                                            "site_nearly_depleted"@
                                        } else {
                                            "-"@
                                        },
                                        witnessed,
                                        transfer_witness: None,
                                        spent: cost,
                                        mass: granted,
                                        band: Some(band),
                                        tier: Some(s.tier),
                                        kind: Some(s.kind),
                                    },
                                )
                            },
                        }
                    }
                },
            }
        },
    }
}

/// The shadow's witness attestation: flat cost, no exhausted gate,
/// social-then-character order, economy untouched.
pub open spec fn shadow_witness_spec(m: ShadowModel, cmd: WitnessCommand) -> (ShadowModel, Expectation) {
    let witnessed = match claim_at(m, cmd.claim.0) {
        Some(c) => c.witnessed,
        None => false,
    };
    let refuse = |reason: Seq<char>| (m, refusal("witness"@, reason, witnessed, None, None));
    match claim_at(m, cmd.claim.0) {
        None => refuse("unknown_claim"@),
        Some(c) => if c.holder == cmd.witness.0 {
            refuse("cannot_witness_own_claim"@)
        } else if c.witnessed {
            refuse("claim_already_witnessed"@)
        } else {
            match stamina_at(m, cmd.witness.0) {
                None => refuse("unknown_actor"@),
                Some(points) => if points < WITNESS_COST {
                    refuse("insufficient_stamina"@)
                } else {
                    (
                        ShadowModel {
                            stamina: set_stamina(m.stamina, cmd.witness.0, (points - WITNESS_COST) as u8),
                            claims: replace_at_key(
                                m.claims,
                                cmd.claim.0 as int,
                                Some(ShadowClaim { witnessed: true, ..c }),
                            ),
                            ..m
                        },
                        Expectation {
                            verb: "witness"@,
                            outcome: "accepted"@,
                            reason: "-"@,
                            witnessed,
                            transfer_witness: None,
                            spent: WITNESS_COST,
                            mass: 0,
                            band: None,
                            tier: None,
                            kind: None,
                        },
                    )
                },
            }
        },
    }
}

/// The shadow's give: parties gate, then a flat cost with no exhausted
/// gate, then an exact holding check. A transfer acts through no claim;
/// the named witness is expected on the receipt by identity.
pub open spec fn shadow_give_spec(m: ShadowModel, cmd: GiveCommand) -> (ShadowModel, Expectation) {
    let tw = match cmd.witness {
        Some(x) => Some(x.0),
        None => None,
    };
    let kind = kind_index(cmd.kind) as usize;
    let refuse = |reason: Seq<char>| (m, refusal("give"@, reason, false, tw, Some(kind)));
    if cmd.giver.0 == cmd.recipient.0 {
        refuse("cannot_give_to_self"@)
    } else if stamina_at(m, cmd.recipient.0) is None {
        refuse("unknown_recipient"@)
    } else if cmd.witness matches Some(x) && stamina_at(m, x.0) is None {
        refuse("unknown_witness"@)
    } else if cmd.witness matches Some(x) && (x.0 == cmd.giver.0 || x.0 == cmd.recipient.0) {
        refuse("witness_is_party"@)
    } else if cmd.grams@ == 0 {
        refuse("empty_transfer"@)
    } else {
        match stamina_at(m, cmd.giver.0) {
            None => refuse("unknown_actor"@),
            Some(points) => if points < GIVE_COST {
                refuse("insufficient_stamina"@)
            } else {
                let held = held_in(m.holdings, cmd.giver.0, kind);
                let grams = cmd.grams@;
                if held < grams {
                    refuse("insufficient_holding"@)
                } else {
                    let drained = replace_at_key(
                        m.holdings,
                        holding_slot(cmd.giver.0, kind),
                        if held == grams {
                            None
                        } else {
                            Some(ShadowHolding { id: cmd.giver.0, kind, grams: (held - grams) as u64 })
                        },
                    );
                    (
                        ShadowModel {
                            stamina: set_stamina(m.stamina, cmd.giver.0, (points - GIVE_COST) as u8),
                            holdings: add_holding_spec(drained, cmd.recipient.0, kind, grams),
                            ..m
                        },
                        Expectation {
                            verb: "give"@,
                            outcome: "accepted"@,
                            reason: "-"@,
                            witnessed: false,
                            transfer_witness: tw,
                            spent: GIVE_COST,
                            mass: grams,
                            band: None,
                            tier: None,
                            kind: Some(kind),
                        },
                    )
                }
            },
        }
    }
}

pub open spec fn shadow_step_spec(m: ShadowModel, cmd: Command) -> (ShadowModel, Expectation) {
    match cmd {
        Command::Gather(g) => shadow_gather_spec(m, g),
        Command::Witness(x) => shadow_witness_spec(m, x),
        Command::Give(g) => shadow_give_spec(m, g),
    }
}

// ---------------------------------------------------------------------------
// Step invariants
// ---------------------------------------------------------------------------

/// A looked-up record weighs at most its table's total.
proof fn lemma_lookup_bounded<T: Keyed>(s: Seq<T>, k: int, w: spec_fn(T) -> int)
    requires
        forall|x: T| #[trigger] w(x) >= 0,
    ensures
        lookup(s, k) matches Some(r) ==> w(r) <= seq_sum(s, w),
        seq_sum(s, w) >= 0,
{
    lemma_sum_nonneg(s, w);
    if has_key(s, k) {
        lemma_sum_element_bound(s, key_index(s, k), w);
    }
}

/// A looked-up record is one of the table's records.
proof fn lemma_lookup_member<T: Keyed>(s: Seq<T>, k: int)
    ensures
        lookup(s, k) matches Some(r) ==> exists|i: int| 0 <= i < s.len() && s[i] == r,
{
    if has_key(s, k) {
        let i = key_index(s, k);
        assert(0 <= i < s.len() && s[i] == lookup(s, k).unwrap());
    }
}

/// Storing a record in a keyed table: order kept, a property shared by all
/// records kept, and the lookups as `lemma_replace_at_key` states.
proof fn lemma_store<T: Keyed>(s: Seq<T>, k: int, x: Option<T>, p: spec_fn(T) -> bool)
    requires
        sorted_by_key(s),
        x matches Some(r) ==> r.key() == k && p(r),
        forall|i: int| 0 <= i < s.len() ==> #[trigger] p(s[i]),
    ensures
        sorted_by_key(replace_at_key(s, k, x)),
        forall|j: int|
            0 <= j < replace_at_key(s, k, x).len() ==> #[trigger] p(replace_at_key(s, k, x)[j]),
{
    lemma_replace_at_key(s, k, x);
    crate::keyed::lemma_split_exists(s, k);
    crate::keyed::lemma_replace_keeps(s, k, x, p);
}

pub open spec fn holding_ok() -> spec_fn(ShadowHolding) -> bool {
    |h: ShadowHolding| h.kind < 3 && h.grams > 0
}

pub open spec fn site_ok() -> spec_fn(ShadowSite) -> bool {
    |s: ShadowSite| s.tier < 4 && s.kind < 3
}

/// Adding to a holding keeps the holdings table well formed and raises its
/// total by exactly the amount added.
proof fn lemma_add_holding(hs: Seq<ShadowHolding>, id: u64, kind: usize, grams: u64)
    requires
        sorted_by_key(hs),
        forall|i: int| 0 <= i < hs.len() ==> #[trigger] holding_ok()(hs[i]),
        kind < 3,
        held_in(hs, id, kind) + grams <= u64::MAX,
    ensures
        sorted_by_key(add_holding_spec(hs, id, kind, grams)),
        forall|i: int|
            0 <= i < add_holding_spec(hs, id, kind, grams).len() ==> #[trigger] holding_ok()(
                add_holding_spec(hs, id, kind, grams)[i],
            ),
        seq_sum(add_holding_spec(hs, id, kind, grams), grams_of()) == seq_sum(hs, grams_of()) + grams,
{
    let next = held_in(hs, id, kind) + grams;
    let x = if next == 0 {
        None
    } else {
        Some(ShadowHolding { id, kind, grams: next as u64 })
    };
    lemma_store(hs, holding_slot(id, kind), x, holding_ok());
    lemma_replace_sum(hs, holding_slot(id, kind), x, grams_of());
}

/// Every shadow step keeps the tables well formed and conserves the
/// shadow's total mass.
pub proof fn lemma_shadow_step(m: ShadowModel, cmd: Command)
    requires
        shadow_wf(m),
    ensures
        shadow_wf(shadow_step_spec(m, cmd).0),
        shadow_total(shadow_step_spec(m, cmd).0) == shadow_total(m),
{
    let stamina_any = |r: ShadowStamina| true;
    let claim_any = |c: ShadowClaim| true;
    lemma_sum_nonneg(m.sites, stock_of());
    lemma_sum_nonneg(m.holdings, grams_of());
    assert forall|i: int| 0 <= i < m.holdings.len() implies #[trigger] holding_ok()(m.holdings[i]) by {}
    assert forall|i: int| 0 <= i < m.sites.len() implies #[trigger] site_ok()(m.sites[i]) by {}
    match cmd {
        Command::Gather(g) => {
            let next = shadow_step_spec(m, cmd).0;
            if next != m {
                let points = stamina_at(m, g.actor.0).unwrap();
                let band = shadow_band(points);
                let cost = STAMINA_COST_BY_BAND[band as int];
                let s = site_at(m, g.site.0).unwrap();
                lemma_lookup_member(m.sites, g.site.0 as int);
                assert(site_ok()(s));
                let requested = YIELD_TABLE_GRAMS[band as int][s.tier as int];
                let granted = if requested < s.stock {
                    requested
                } else {
                    s.stock
                };
                lemma_store(m.stamina, g.actor.0 as int, Some(ShadowStamina { id: g.actor.0, points: (points - cost) as u8 }), stamina_any);
                let new_site = ShadowSite { stock: (s.stock - granted) as u64, ..s };
                lemma_store(m.sites, g.site.0 as int, Some(new_site), site_ok());
                lemma_replace_sum(m.sites, g.site.0 as int, Some(new_site), stock_of());
                lemma_lookup_bounded(m.sites, g.site.0 as int, stock_of());
                lemma_lookup_bounded(m.holdings, holding_slot(g.actor.0, s.kind), grams_of());
                lemma_add_holding(m.holdings, g.actor.0, s.kind, granted);
                assert(next.holdings == add_holding_spec(m.holdings, g.actor.0, s.kind, granted));
                assert forall|i: int| 0 <= i < next.sites.len() implies (#[trigger] next.sites[i]).tier < 4
                    && next.sites[i].kind < 3 by {
                    assert(site_ok()(next.sites[i]));
                }
                assert forall|i: int| 0 <= i < next.holdings.len() implies (#[trigger] next.holdings[i]).kind < 3
                    && next.holdings[i].grams > 0 by {
                    assert(holding_ok()(next.holdings[i]));
                }
            }
        },
        Command::Witness(x) => {
            let next = shadow_step_spec(m, cmd).0;
            if next != m {
                let points = stamina_at(m, x.witness.0).unwrap();
                let c = claim_at(m, x.claim.0).unwrap();
                lemma_store(m.stamina, x.witness.0 as int, Some(ShadowStamina { id: x.witness.0, points: (points - WITNESS_COST) as u8 }), stamina_any);
                lemma_lookup_member(m.claims, x.claim.0 as int);
                lemma_store(m.claims, x.claim.0 as int, Some(ShadowClaim { witnessed: true, ..c }), claim_any);
            }
        },
        Command::Give(g) => {
            let next = shadow_step_spec(m, cmd).0;
            if next != m {
                let kind = kind_index(g.kind) as usize;
                let points = stamina_at(m, g.giver.0).unwrap();
                let held = held_in(m.holdings, g.giver.0, kind);
                let grams = g.grams@;
                let x = if held == grams {
                    None
                } else {
                    Some(ShadowHolding { id: g.giver.0, kind, grams: (held - grams) as u64 })
                };
                lemma_store(m.stamina, g.giver.0 as int, Some(ShadowStamina { id: g.giver.0, points: (points - GIVE_COST) as u8 }), stamina_any);
                lemma_store(m.holdings, holding_slot(g.giver.0, kind), x, holding_ok());
                lemma_replace_sum(m.holdings, holding_slot(g.giver.0, kind), x, grams_of());
                lemma_lookup_bounded(m.holdings, holding_slot(g.giver.0, kind), grams_of());
                let drained = replace_at_key(m.holdings, holding_slot(g.giver.0, kind), x);
                lemma_lookup_bounded(drained, holding_slot(g.recipient.0, kind), grams_of());
                lemma_add_holding(drained, g.recipient.0, kind, grams);
                assert(next.holdings == add_holding_spec(drained, g.recipient.0, kind, grams));
                assert forall|i: int| 0 <= i < next.holdings.len() implies (#[trigger] next.holdings[i]).kind < 3
                    && next.holdings[i].grams > 0 by {
                    assert(holding_ok()(next.holdings[i]));
                }
            }
        },
    }
}

// ---------------------------------------------------------------------------
// The exec evaluator
// ---------------------------------------------------------------------------

fn refused(
    verb: &'static str,
    reason: &'static str,
    witnessed: bool,
    transfer_witness: Option<u64>,
    kind: Option<usize>,
) -> (r: ShadowExpectation)
    ensures
        r@ == refusal(verb@, reason@, witnessed, transfer_witness, kind),
{
    ShadowExpectation {
        verb_code: verb,
        outcome_code: "refused",
        reason_code: reason,
        witnessed,
        transfer_witness,
        spent: 0,
        mass_grams: 0,
        band_index: None,
        tier_index: None,
        kind_index: kind,
    }
}

impl ShadowState {
    fn stamina_get(&self, id: u64) -> (r: Option<u8>)
        requires
            shadow_wf(self@),
        ensures
            r == stamina_at(self@, id),
    {
        proof {
            lemma_sorted_unique(self.stamina@);
        }
        match find_key(&self.stamina, id as u128) {
            Some(i) => Some(self.stamina[i].points),
            None => None,
        }
    }

    fn claim_get(&self, id: u64) -> (r: Option<ShadowClaim>)
        requires
            shadow_wf(self@),
        ensures
            r == claim_at(self@, id),
    {
        proof {
            lemma_sorted_unique(self.claims@);
        }
        match find_key(&self.claims, id as u128) {
            Some(i) => Some(self.claims[i]),
            None => None,
        }
    }

    fn site_get(&self, id: u64) -> (r: Option<ShadowSite>)
        requires
            shadow_wf(self@),
        ensures
            r == site_at(self@, id),
    {
        proof {
            lemma_sorted_unique(self.sites@);
        }
        match find_key(&self.sites, id as u128) {
            Some(i) => Some(self.sites[i]),
            None => None,
        }
    }

    fn held(&self, id: u64, kind: usize) -> (r: u64)
        requires
            sorted_by_key(self@.holdings),
        ensures
            r == held_in(self@.holdings, id, kind),
    {
        proof {
            lemma_sorted_unique(self.holdings@);
        }
        match find_key(&self.holdings, (id as u128) * 3 + (kind as u128)) {
            Some(i) => self.holdings[i].grams,
            None => 0,
        }
    }

    fn set_points(&mut self, id: u64, points: u8)
        requires
            sorted_by_key(old(self)@.stamina),
        ensures
            final(self)@ == (ShadowModel { stamina: set_stamina(old(self)@.stamina, id, points), ..old(self)@ }),
    {
        replace_keyed(&mut self.stamina, id as u128, Some(ShadowStamina { id, points }));
    }

    /// Adds to a holding with the owner's zero-normalization: a holding
    /// that sums to zero is removed.
    fn add_holding(&mut self, id: u64, kind: usize, grams: u64)
        requires
            sorted_by_key(old(self)@.holdings),
            held_in(old(self)@.holdings, id, kind) + grams <= u64::MAX,
        ensures
            final(self)@ == (ShadowModel {
                holdings: add_holding_spec(old(self)@.holdings, id, kind, grams),
                ..old(self)@
            }),
    {
        let next = self.held(id, kind) + grams;
        let x = if next == 0 {
            None
        } else {
            Some(ShadowHolding { id, kind, grams: next })
        };
        replace_keyed(&mut self.holdings, (id as u128) * 3 + (kind as u128), x);
    }

    pub fn step(&mut self, cmd: &Command) -> (r: ShadowExpectation)
        requires
            shadow_wf(old(self)@),
        ensures
            (final(self)@, r@) == shadow_step_spec(old(self)@, *cmd),
            shadow_wf(final(self)@),
            shadow_total(final(self)@) == shadow_total(old(self)@),
    {
        proof {
            lemma_shadow_step(self@, *cmd);
        }
        match cmd {
            Command::Gather(gather) => self.step_gather(gather),
            Command::Witness(witness) => self.step_witness(witness),
            Command::Give(give) => self.step_give(give),
        }
    }

    pub fn step_gather(&mut self, cmd: &GatherCommand) -> (r: ShadowExpectation)
        requires
            shadow_wf(old(self)@),
        ensures
            (final(self)@, r@) == shadow_gather_spec(old(self)@, *cmd),
    {
        let ghost m = self@;
        let witnessed = match self.claim_get(cmd.claim.0) {
            Some(c) => c.witnessed,
            None => false,
        };
        let site_kind = match self.site_get(cmd.site.0) {
            Some(s) => Some(s.kind),
            None => None,
        };
        // Gate 1: social.
        let c = match self.claim_get(cmd.claim.0) {
            Some(c) => c,
            None => return refused("gather", "unknown_claim", witnessed, None, site_kind),
        };
        if c.holder != cmd.actor.0 {
            return refused("gather", "claim_not_held_by_actor", witnessed, None, site_kind);
        }
        if c.site != cmd.site.0 {
            return refused("gather", "claim_site_mismatch", witnessed, None, site_kind);
        }
        if !c.witnessed {
            return refused("gather", "claim_not_witnessed", witnessed, None, site_kind);
        }
        // Gate 2: character.
        let points = match self.stamina_get(cmd.actor.0) {
            Some(p) => p,
            None => return refused("gather", "unknown_actor", witnessed, None, site_kind),
        };
        let band = shadow_band_index(points);
        let cost = STAMINA_COST_BY_BAND[band];
        if band == 0 {
            return refused("gather", "actor_exhausted", witnessed, None, site_kind);
        }
        if points < cost {
            return refused("gather", "insufficient_stamina", witnessed, None, site_kind);
        }
        // Gate 3: economy and the 4x4 cell.
        let s = match self.site_get(cmd.site.0) {
            Some(s) => s,
            None => return refused("gather", "unknown_site", witnessed, None, site_kind),
        };
        if s.stock == 0 {
            return refused("gather", "site_empty", witnessed, None, site_kind);
        }
        proof {
            lemma_lookup_member(m.sites, cmd.site.0 as int);
            lemma_sum_nonneg(m.sites, stock_of());
            lemma_sum_nonneg(m.holdings, grams_of());
            lemma_lookup_bounded(m.sites, cmd.site.0 as int, stock_of());
            lemma_lookup_bounded(m.holdings, holding_slot(cmd.actor.0, s.kind), grams_of());
        }
        let requested = YIELD_TABLE_GRAMS[band][s.tier];
        let granted = if requested < s.stock {
            requested
        } else {
            s.stock
        };
        // The grant lands in the holding of the site's kind — decided here,
        // independently of the boundary.
        self.set_points(cmd.actor.0, points - cost);
        replace_keyed(&mut self.sites, cmd.site.0 as u128, Some(ShadowSite { stock: s.stock - granted, ..s }));
        self.add_holding(cmd.actor.0, s.kind, granted);
        let partial = granted < requested;
        ShadowExpectation {
            verb_code: "gather",
            outcome_code: if partial {
                "partial"
            } else {
                "accepted"
            },
            reason_code: if partial {
                "site_nearly_depleted"
            } else {
                "-"
            },
            witnessed,
            transfer_witness: None,
            spent: cost,
            mass_grams: granted,
            band_index: Some(band),
            tier_index: Some(s.tier),
            kind_index: Some(s.kind),
        }
    }

    pub fn step_witness(&mut self, cmd: &WitnessCommand) -> (r: ShadowExpectation)
        requires
            shadow_wf(old(self)@),
        ensures
            (final(self)@, r@) == shadow_witness_spec(old(self)@, *cmd),
    {
        let witnessed = match self.claim_get(cmd.claim.0) {
            Some(c) => c.witnessed,
            None => false,
        };
        // Gate 1: social.
        let c = match self.claim_get(cmd.claim.0) {
            Some(c) => c,
            None => return refused("witness", "unknown_claim", witnessed, None, None),
        };
        if c.holder == cmd.witness.0 {
            return refused("witness", "cannot_witness_own_claim", witnessed, None, None);
        }
        if c.witnessed {
            return refused("witness", "claim_already_witnessed", witnessed, None, None);
        }
        // Gate 2: character — flat cost, no exhausted gate.
        let points = match self.stamina_get(cmd.witness.0) {
            Some(p) => p,
            None => return refused("witness", "unknown_actor", witnessed, None, None),
        };
        if points < WITNESS_COST {
            return refused("witness", "insufficient_stamina", witnessed, None, None);
        }
        self.set_points(cmd.witness.0, points - WITNESS_COST);
        replace_keyed(&mut self.claims, cmd.claim.0 as u128, Some(ShadowClaim { witnessed: true, ..c }));
        ShadowExpectation {
            verb_code: "witness",
            outcome_code: "accepted",
            reason_code: "-",
            witnessed,
            transfer_witness: None,
            spent: WITNESS_COST,
            mass_grams: 0,
            band_index: None,
            tier_index: None,
            kind_index: None,
        }
    }

    pub fn step_give(&mut self, cmd: &GiveCommand) -> (r: ShadowExpectation)
        requires
            shadow_wf(old(self)@),
        ensures
            (final(self)@, r@) == shadow_give_spec(old(self)@, *cmd),
    {
        let ghost m = self@;
        let tw = match cmd.witness {
            Some(x) => Some(x.0),
            None => None,
        };
        let kind = cmd.kind.index();
        // Gate 1: parties.
        if cmd.giver.0 == cmd.recipient.0 {
            return refused("give", "cannot_give_to_self", false, tw, Some(kind));
        }
        if self.stamina_get(cmd.recipient.0).is_none() {
            return refused("give", "unknown_recipient", false, tw, Some(kind));
        }
        match cmd.witness {
            Some(witness) => {
                if self.stamina_get(witness.0).is_none() {
                    return refused("give", "unknown_witness", false, tw, Some(kind));
                }
                if witness.0 == cmd.giver.0 || witness.0 == cmd.recipient.0 {
                    return refused("give", "witness_is_party", false, tw, Some(kind));
                }
            },
            None => {},
        }
        if cmd.grams.grams() == 0 {
            return refused("give", "empty_transfer", false, tw, Some(kind));
        }
        // Gate 2: character — flat cost, no exhausted gate.
        let points = match self.stamina_get(cmd.giver.0) {
            Some(p) => p,
            None => return refused("give", "unknown_actor", false, tw, Some(kind)),
        };
        if points < GIVE_COST {
            return refused("give", "insufficient_stamina", false, tw, Some(kind));
        }
        // Gate 3: economy — exact, never partial.
        let held = self.held(cmd.giver.0, kind);
        let grams = cmd.grams.grams();
        if held < grams {
            return refused("give", "insufficient_holding", false, tw, Some(kind));
        }
        proof {
            let x = if held == grams {
                None
            } else {
                Some(ShadowHolding { id: cmd.giver.0, kind, grams: (held - grams) as u64 })
            };
            lemma_sum_nonneg(m.holdings, grams_of());
            lemma_lookup_bounded(m.holdings, holding_slot(cmd.giver.0, kind), grams_of());
            lemma_replace_sum(m.holdings, holding_slot(cmd.giver.0, kind), x, grams_of());
            let drained = replace_at_key(m.holdings, holding_slot(cmd.giver.0, kind), x);
            lemma_lookup_bounded(drained, holding_slot(cmd.recipient.0, kind), grams_of());
            lemma_sum_nonneg(m.sites, stock_of());
            assert forall|i: int| 0 <= i < m.holdings.len() implies #[trigger] holding_ok()(m.holdings[i]) by {}
            lemma_store(m.holdings, holding_slot(cmd.giver.0, kind), x, holding_ok());
        }
        self.set_points(cmd.giver.0, points - GIVE_COST);
        if held == grams {
            replace_keyed(&mut self.holdings, (cmd.giver.0 as u128) * 3 + (kind as u128), None);
        } else {
            replace_keyed(
                &mut self.holdings,
                (cmd.giver.0 as u128) * 3 + (kind as u128),
                Some(ShadowHolding { id: cmd.giver.0, kind, grams: held - grams }),
            );
        }
        self.add_holding(cmd.recipient.0, kind, grams);
        ShadowExpectation {
            verb_code: "give",
            outcome_code: "accepted",
            reason_code: "-",
            witnessed: false,
            transfer_witness: tw,
            spent: GIVE_COST,
            mass_grams: grams,
            band_index: None,
            tier_index: None,
            kind_index: Some(kind),
        }
    }
}

// ---------------------------------------------------------------------------
// Runs and final-state comparison
// ---------------------------------------------------------------------------

/// The shadow's state and expectations after stepping `cmds` in order.
pub open spec fn shadow_run_spec(m: ShadowModel, cmds: Seq<Command>) -> (ShadowModel, Seq<Expectation>)
    decreases cmds.len(),
{
    if cmds.len() == 0 {
        (m, Seq::empty())
    } else {
        let prev = shadow_run_spec(m, cmds.drop_last());
        let step = shadow_step_spec(prev.0, cmds.last());
        (step.0, prev.1.push(step.1))
    }
}

/// Stepping keeps the shadow well formed along a whole run.
pub proof fn lemma_shadow_run(m: ShadowModel, cmds: Seq<Command>)
    requires
        shadow_wf(m),
    ensures
        shadow_wf(shadow_run_spec(m, cmds).0),
        shadow_run_spec(m, cmds).1.len() == cmds.len(),
    decreases cmds.len(),
{
    if cmds.len() > 0 {
        lemma_shadow_run(m, cmds.drop_last());
        lemma_shadow_step(shadow_run_spec(m, cmds.drop_last()).0, cmds.last());
    }
}

/// How many of the four truth domains (stamina, holdings, sites, claims)
/// of the world differ from the shadow's tables.
pub open spec fn divergences(m: ShadowModel, w: WorldModel) -> nat {
    let a = shadow_of_world(w);
    (if a.stamina != m.stamina {
        1nat
    } else {
        0nat
    }) + (if a.holdings != m.holdings {
        1nat
    } else {
        0nat
    }) + (if a.sites != m.sites {
        1nat
    } else {
        0nat
    }) + (if a.claims != m.claims {
        1nat
    } else {
        0nat
    })
}

fn stamina_rows_equal(a: &Vec<ShadowStamina>, b: &Vec<ShadowStamina>) -> (r: bool)
    ensures
        r == (a@ == b@),
{
    if a.len() != b.len() {
        return false;
    }
    let mut i: usize = 0;
    while i < a.len()
        invariant
            a@.len() == b@.len(),
            i <= a@.len(),
            forall|j: int| 0 <= j < i ==> a@[j] == b@[j],
        decreases a@.len() - i,
    {
        if a[i] != b[i] {
            return false;
        }
        i = i + 1;
    }
    assert(a@ =~= b@);
    true
}

fn holding_rows_equal(a: &Vec<ShadowHolding>, b: &Vec<ShadowHolding>) -> (r: bool)
    ensures
        r == (a@ == b@),
{
    if a.len() != b.len() {
        return false;
    }
    let mut i: usize = 0;
    while i < a.len()
        invariant
            a@.len() == b@.len(),
            i <= a@.len(),
            forall|j: int| 0 <= j < i ==> a@[j] == b@[j],
        decreases a@.len() - i,
    {
        if a[i] != b[i] {
            return false;
        }
        i = i + 1;
    }
    assert(a@ =~= b@);
    true
}

fn site_rows_equal(a: &Vec<ShadowSite>, b: &Vec<ShadowSite>) -> (r: bool)
    ensures
        r == (a@ == b@),
{
    if a.len() != b.len() {
        return false;
    }
    let mut i: usize = 0;
    while i < a.len()
        invariant
            a@.len() == b@.len(),
            i <= a@.len(),
            forall|j: int| 0 <= j < i ==> a@[j] == b@[j],
        decreases a@.len() - i,
    {
        if a[i] != b[i] {
            return false;
        }
        i = i + 1;
    }
    assert(a@ =~= b@);
    true
}

fn claim_rows_equal(a: &Vec<ShadowClaim>, b: &Vec<ShadowClaim>) -> (r: bool)
    ensures
        r == (a@ == b@),
{
    if a.len() != b.len() {
        return false;
    }
    let mut i: usize = 0;
    while i < a.len()
        invariant
            a@.len() == b@.len(),
            i <= a@.len(),
            forall|j: int| 0 <= j < i ==> a@[j] == b@[j],
        decreases a@.len() - i,
    {
        if a[i] != b[i] {
            return false;
        }
        i = i + 1;
    }
    assert(a@ =~= b@);
    true
}

impl ShadowState {
    /// Counts the truth domains where the world differs from the shadow's
    /// final state. Reads the world only through the owners' read-only
    /// listings — never a receipt, never the implementation's replay.
    pub fn final_state_divergences(&self, world: &World) -> (r: usize)
        requires
            world.wf(),
        ensures
            r == divergences(self@, world@),
    {
        let actual = ShadowState::from_fixture(world);
        let mut count: usize = 0;
        if !stamina_rows_equal(&actual.stamina, &self.stamina) {
            count = count + 1;
        }
        if !holding_rows_equal(&actual.holdings, &self.holdings) {
            count = count + 1;
        }
        if !site_rows_equal(&actual.sites, &self.sites) {
            count = count + 1;
        }
        if !claim_rows_equal(&actual.claims, &self.claims) {
            count = count + 1;
        }
        count
    }
}

} // verus!
