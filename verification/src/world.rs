//! The whole truth-layer state, split across exactly three single-writer
//! owners; its deterministic hash, its exact canonical serialization, and
//! cross-owner fixture coherence.

use vstd::prelude::*;

use crate::character::{
    character_bytes, character_wf, lemma_increasing_no_duplicate, stamina_of, CharacterModel,
    CharacterOwner,
};
use crate::economy::{
    economy_bytes, economy_headroom, economy_wf, holding_of, seeded_mass, site_of, total_mass_spec,
    EconomyModel, EconomyOwner, SiteRecord,
};
use crate::fnv::{fnv_fold, fnv_hash, lemma_fnv_fold_concat, Fnv1a, FNV_OFFSET};
use crate::keyed::{
    first_index_where, has_key, key_index, lemma_first_index_where, lemma_key_index, lemma_lookup_ext,
    lemma_no_index_where, lemma_sorted_unique, lookup, sorted_by_key, Keyed,
};
use crate::social::{claim_of, social_bytes, social_wf, ClaimRecord, SocialModel, SocialOwner};
use crate::text::{dec_chars, push_decimal, push_str};
use crate::vocab::{
    kind_code, kind_at, tier_code, CharacterId, ClaimId, FixtureFault, InfraTier, MassGrams,
    ResourceKind, SiteId, Stamina,
};
use crate::canon::{holdings_belong_to_characters, lemma_same_lines_same_bytes};
use crate::character::StaminaRecord;

verus! {

/// Abstract state of the whole truth layer.
pub struct WorldModel {
    pub characters: CharacterModel,
    pub economy: EconomyModel,
    pub social: SocialModel,
}

pub open spec fn world_wf(w: WorldModel) -> bool {
    &&& character_wf(w.characters)
    &&& economy_wf(w.economy)
    &&& social_wf(w.social)
}

/// Every owner counter has room for one more apply.
pub open spec fn world_headroom(w: WorldModel) -> bool {
    &&& w.characters.revision < u64::MAX
    &&& w.social.revision < u64::MAX
    &&& economy_headroom(w.economy)
}

/// The byte stream the world hash is computed over: the character owner,
/// then the economy owner, then the social owner.
pub open spec fn world_bytes(w: WorldModel) -> Seq<u8> {
    character_bytes(w.characters) + economy_bytes(w.economy) + social_bytes(w.social)
}

pub closed spec fn world_hash_spec(w: WorldModel) -> u64 {
    fnv_hash(world_bytes(w))
}

/// The world hash is a function of the canonical state: two well-formed
/// worlds whose stored holdings all belong to their characters, and whose
/// canonical lines are the same, have the same hash. Entity revisions,
/// which the canonical state leaves out, never reach the hash.
pub proof fn law_hash_follows_canonical_state(w1: WorldModel, w2: WorldModel)
    requires
        world_wf(w1),
        world_wf(w2),
        holdings_belong_to_characters(w1),
        holdings_belong_to_characters(w2),
        canonical_lines(w1) == canonical_lines(w2),
    ensures
        world_hash_spec(w1) == world_hash_spec(w2),
{
    lemma_same_lines_same_bytes(w1, w2);
}

pub open spec fn bool_chars(b: bool) -> Seq<char> {
    if b {
        "true"@
    } else {
        "false"@
    }
}

pub open spec fn kind_segment(e: EconomyModel, id: u64, k: ResourceKind) -> Seq<char> {
    " "@ + kind_code(k) + "_g="@ + dec_chars(holding_of(e, id, k) as nat)
}

/// One character's line: stamina, then every kind's holding, zeros
/// included, in kind order.
pub open spec fn character_line(e: EconomyModel, r: StaminaRecord) -> Seq<char> {
    "character C"@ + dec_chars(r.id as nat) + " stamina="@ + dec_chars(r.points as nat)
        + kind_segment(e, r.id, ResourceKind::Fodder) + kind_segment(e, r.id, ResourceKind::Food)
        + kind_segment(e, r.id, ResourceKind::Timber)
}

pub open spec fn site_line(s: SiteRecord) -> Seq<char> {
    "site S"@ + dec_chars(s.id as nat) + " tier="@ + tier_code(s.tier) + " kind="@ + kind_code(s.kind)
        + " stock_g="@ + dec_chars(s.stock as nat)
}

pub open spec fn claim_line(c: ClaimRecord) -> Seq<char> {
    "claim K"@ + dec_chars(c.id as nat) + " holder=C"@ + dec_chars(c.holder as nat) + " site=S"@
        + dec_chars(c.site as nat) + " witnessed="@ + bool_chars(c.witnessed)
}

pub open spec fn revisions_line(w: WorldModel) -> Seq<char> {
    "revisions character="@ + dec_chars(w.characters.revision as nat) + " economy="@ + dec_chars(
        w.economy.revision as nat,
    ) + " social="@ + dec_chars(w.social.revision as nat)
}

/// Exact canonical serialization of the whole truth state: one line per
/// fact in owner/key order, then the three owner counters.
pub open spec fn canonical_lines(w: WorldModel) -> Seq<Seq<char>> {
    Seq::new(
        w.characters.records.len(),
        |i: int| character_line(w.economy, w.characters.records[i]),
    ) + Seq::new(w.economy.sites.len(), |i: int| site_line(w.economy.sites[i])) + Seq::new(
        w.social.records.len(),
        |i: int| claim_line(w.social.records[i]),
    ) + seq![revisions_line(w)]
}

/// A claim naming a character or site that does not exist.
pub open spec fn claim_dangles(w: WorldModel, c: ClaimRecord) -> bool {
    stamina_of(w.characters, c.holder) is None || site_of(w.economy, c.site) is None
}

pub open spec fn dangling_at(w: WorldModel) -> spec_fn(int) -> bool {
    |i: int| claim_dangles(w, w.social.records[i])
}

/// Strictly increasing ids.
pub open spec fn increasing(ids: Seq<u64>) -> bool {
    forall|i: int, j: int| 0 <= i < j < ids.len() ==> ids[i] < ids[j]
}

/// A freshly seeded character body.
pub open spec fn fresh_body(id: u64, points: u8) -> StaminaRecord {
    StaminaRecord { id, points, revision: 0 }
}

/// A freshly seeded site.
pub open spec fn fresh_site(id: u64, tier: InfraTier, kind: ResourceKind, stock: u64) -> SiteRecord {
    SiteRecord { id, tier, kind, stock, revision: 0 }
}

/// A freshly seeded claim.
pub open spec fn fresh_claim(id: u64, holder: u64, site: u64, witnessed: bool) -> ClaimRecord {
    ClaimRecord { id, holder, site, witnessed, revision: 0 }
}

/// A freshly seeded world: the given tables, no holding, every counter at
/// zero.
pub open spec fn fresh_world(
    bodies: Seq<StaminaRecord>,
    sites: Seq<SiteRecord>,
    claims: Seq<ClaimRecord>,
) -> WorldModel {
    WorldModel {
        characters: CharacterModel { records: bodies, revision: 0 },
        economy: EconomyModel {
            sites,
            holdings: Seq::empty(),
            holding_revisions: Seq::empty(),
            revision: 0,
        },
        social: SocialModel { records: claims, revision: 0 },
    }
}

/// The world seeded from three entry lists: every character with its
/// stamina, every site with its tier, kind and stock, every claim with
/// its holder, site and witness flag, all in the given order with every
/// revision at zero, and no holding.
pub open spec fn seeded_world(
    characters: Seq<(CharacterId, Stamina)>,
    sites: Seq<(SiteId, InfraTier, ResourceKind, MassGrams)>,
    claims: Seq<(ClaimId, CharacterId, SiteId, bool)>,
) -> WorldModel {
    WorldModel {
        characters: CharacterModel {
            records: characters.map_values(
                |e: (CharacterId, Stamina)| StaminaRecord { id: e.0.0, points: e.1@, revision: 0 },
            ),
            revision: 0,
        },
        economy: EconomyModel {
            sites: sites.map_values(
                |e: (SiteId, InfraTier, ResourceKind, MassGrams)|
                    SiteRecord { id: e.0.0, tier: e.1, kind: e.2, stock: e.3@, revision: 0 },
            ),
            holdings: Seq::empty(),
            holding_revisions: Seq::empty(),
            revision: 0,
        },
        social: SocialModel {
            records: claims.map_values(
                |e: (ClaimId, CharacterId, SiteId, bool)|
                    ClaimRecord { id: e.0.0, holder: e.1.0, site: e.2.0, witnessed: e.3, revision: 0 },
            ),
            revision: 0,
        },
    }
}

/// A table in key order whose keys are all `u64` ids is the table of
/// records seeded from an id-increasing list, when both find the same
/// record under every id.
proof fn lemma_seeded_table<T: Keyed>(t: Seq<T>, m: Seq<T>)
    requires
        sorted_by_key(t),
        sorted_by_key(m),
        forall|i: int| 0 <= i < t.len() ==> 0 <= #[trigger] t[i].key() <= u64::MAX,
        forall|i: int| 0 <= i < m.len() ==> 0 <= #[trigger] m[i].key() <= u64::MAX,
        forall|k: u64| #[trigger] lookup(t, k as int) == lookup(m, k as int),
    ensures
        t == m,
{
    assert forall|q: int| #[trigger] lookup(t, q) == lookup(m, q) by {
        if 0 <= q <= u64::MAX {
            assert(lookup(t, (q as u64) as int) == lookup(m, (q as u64) as int));
        } else {
            if has_key(t, q) {
                let i = key_index(t, q);
                assert(0 <= t[i].key() <= u64::MAX);
            }
            if has_key(m, q) {
                let i = key_index(m, q);
                assert(0 <= m[i].key() <= u64::MAX);
            }
        }
    }
    lemma_lookup_ext(t, m);
}

/// The character table seeded from an id-increasing list is exactly the
/// list's records.
proof fn lemma_seeded_characters(entries: Seq<(CharacterId, Stamina)>, m: CharacterModel)
    requires
        character_wf(m),
        increasing(entries.map_values(|e: (CharacterId, Stamina)| e.0.0)),
        forall|i: int| 0 <= i < m.records.len() ==> (#[trigger] m.records[i]).revision == 0,
        forall|k: u64|
            #[trigger] stamina_of(m, k) == if exists|i: int| 0 <= i < entries.len() && (#[trigger] entries[i]).0.0 == k {
                Some(entries[choose|i: int| 0 <= i < entries.len() && (#[trigger] entries[i]).0.0 == k].1@)
            } else {
                None::<u8>
            },
    ensures
        m.records == seeded_world(entries, Seq::empty(), Seq::empty()).characters.records,
{
    let mm = seeded_world(entries, Seq::empty(), Seq::empty()).characters.records;
    let ids = entries.map_values(|e: (CharacterId, Stamina)| e.0.0);
    assert forall|i: int, j: int| 0 <= i < j < mm.len() implies #[trigger] mm[i].key() < #[trigger] mm[j].key() by {
        assert(ids[i] < ids[j]);
    }
    lemma_sorted_unique(m.records);
    lemma_sorted_unique(mm);
    assert forall|k: u64| #[trigger] lookup(m.records, k as int) == lookup(mm, k as int) by {
        if has_key(mm, k as int) {
            let j = key_index(mm, k as int);
            assert(entries[j].0.0 == k);
            let c = choose|i: int| 0 <= i < entries.len() && (#[trigger] entries[i]).0.0 == k;
            if c < j {
                assert(ids[c] < ids[j]);
            } else if c > j {
                assert(ids[j] < ids[c]);
            }
            assert(stamina_of(m, k) is Some);
            let i = key_index(m.records, k as int);
            assert(m.records[i].revision == 0);
        } else {
            if exists|i: int| 0 <= i < entries.len() && (#[trigger] entries[i]).0.0 == k {
                let i = choose|i: int| 0 <= i < entries.len() && (#[trigger] entries[i]).0.0 == k;
                assert(mm[i].key() == k);
            }
            assert(stamina_of(m, k) is None);
        }
    }
    lemma_seeded_table(m.records, mm);
}

/// The site table seeded from an id-increasing list is exactly the list's
/// records.
proof fn lemma_seeded_sites(entries: Seq<(SiteId, InfraTier, ResourceKind, MassGrams)>, m: EconomyModel)
    requires
        economy_wf(m),
        increasing(entries.map_values(|e: (SiteId, InfraTier, ResourceKind, MassGrams)| e.0.0)),
        forall|k: u64|
            #[trigger] site_of(m, k) == if exists|i: int| 0 <= i < entries.len() && (#[trigger] entries[i]).0.0 == k {
                let e = entries[choose|i: int| 0 <= i < entries.len() && (#[trigger] entries[i]).0.0 == k];
                Some(SiteRecord { id: k, tier: e.1, kind: e.2, stock: e.3@, revision: 0 })
            } else {
                None::<SiteRecord>
            },
    ensures
        m.sites == seeded_world(Seq::empty(), entries, Seq::empty()).economy.sites,
{
    let mm = seeded_world(Seq::empty(), entries, Seq::empty()).economy.sites;
    let ids = entries.map_values(|e: (SiteId, InfraTier, ResourceKind, MassGrams)| e.0.0);
    assert forall|i: int, j: int| 0 <= i < j < mm.len() implies #[trigger] mm[i].key() < #[trigger] mm[j].key() by {
        assert(ids[i] < ids[j]);
    }
    lemma_sorted_unique(m.sites);
    lemma_sorted_unique(mm);
    assert forall|k: u64| #[trigger] lookup(m.sites, k as int) == lookup(mm, k as int) by {
        if has_key(mm, k as int) {
            let j = key_index(mm, k as int);
            assert(entries[j].0.0 == k);
            let c = choose|i: int| 0 <= i < entries.len() && (#[trigger] entries[i]).0.0 == k;
            if c < j {
                assert(ids[c] < ids[j]);
            } else if c > j {
                assert(ids[j] < ids[c]);
            }
            assert(site_of(m, k) is Some);
        } else {
            if exists|i: int| 0 <= i < entries.len() && (#[trigger] entries[i]).0.0 == k {
                let i = choose|i: int| 0 <= i < entries.len() && (#[trigger] entries[i]).0.0 == k;
                assert(mm[i].key() == k);
            }
            assert(site_of(m, k) is None);
        }
    }
    lemma_seeded_table(m.sites, mm);
}

/// The claim table seeded from an id-increasing list is exactly the
/// list's records.
proof fn lemma_seeded_claims(entries: Seq<(ClaimId, CharacterId, SiteId, bool)>, m: SocialModel)
    requires
        social_wf(m),
        increasing(entries.map_values(|e: (ClaimId, CharacterId, SiteId, bool)| e.0.0)),
        forall|k: u64|
            #[trigger] claim_of(m, k) == if exists|i: int| 0 <= i < entries.len() && (#[trigger] entries[i]).0.0 == k {
                let e = entries[choose|i: int| 0 <= i < entries.len() && (#[trigger] entries[i]).0.0 == k];
                Some(ClaimRecord { id: k, holder: e.1.0, site: e.2.0, witnessed: e.3, revision: 0 })
            } else {
                None::<ClaimRecord>
            },
    ensures
        m.records == seeded_world(Seq::empty(), Seq::empty(), entries).social.records,
{
    let mm = seeded_world(Seq::empty(), Seq::empty(), entries).social.records;
    let ids = entries.map_values(|e: (ClaimId, CharacterId, SiteId, bool)| e.0.0);
    assert forall|i: int, j: int| 0 <= i < j < mm.len() implies #[trigger] mm[i].key() < #[trigger] mm[j].key() by {
        assert(ids[i] < ids[j]);
    }
    lemma_sorted_unique(m.records);
    lemma_sorted_unique(mm);
    assert forall|k: u64| #[trigger] lookup(m.records, k as int) == lookup(mm, k as int) by {
        if has_key(mm, k as int) {
            let j = key_index(mm, k as int);
            assert(entries[j].0.0 == k);
            let c = choose|i: int| 0 <= i < entries.len() && (#[trigger] entries[i]).0.0 == k;
            if c < j {
                assert(ids[c] < ids[j]);
            } else if c > j {
                assert(ids[j] < ids[c]);
            }
            assert(claim_of(m, k) is Some);
        } else {
            if exists|i: int| 0 <= i < entries.len() && (#[trigger] entries[i]).0.0 == k {
                let i = choose|i: int| 0 <= i < entries.len() && (#[trigger] entries[i]).0.0 == k;
                assert(mm[i].key() == k);
            }
            assert(claim_of(m, k) is None);
        }
    }
    lemma_seeded_table(m.records, mm);
}

/// Cross-owner fixture integrity: total mass fits its canonical `u64`
/// representation, and every claim, in claim order, points at a known
/// holder and a known site.
pub open spec fn coherence_spec(w: WorldModel) -> Result<(), FixtureFault> {
    if total_mass_spec(w.economy) > u64::MAX {
        Err(FixtureFault::TotalMassOverflow)
    } else {
        match first_index_where(w.social.records.len() as int, dangling_at(w)) {
            Some(i) => {
                let c = w.social.records[i];
                if stamina_of(w.characters, c.holder) is None {
                    Err(FixtureFault::ClaimHolderUnknown(ClaimId(c.id)))
                } else {
                    Err(FixtureFault::ClaimSiteUnknown(ClaimId(c.id)))
                }
            },
            None => Ok(()),
        }
    }
}

/// The whole truth-layer state, split across exactly three single-writer
/// owners. Each owner's internals are private to its module.
pub struct World {
    pub characters: CharacterOwner,
    pub economy: EconomyOwner,
    pub social: SocialOwner,
}

fn kind_segment_into(s: &mut String, economy: &EconomyOwner, id: CharacterId, k: ResourceKind)
    requires
        economy.wf(),
    ensures
        final(s)@ == old(s)@ + kind_segment(economy@, id.0, k),
{
    push_str(s, " ");
    push_str(s, k.code());
    push_str(s, "_g=");
    push_decimal(s, economy.holding(id, k).grams());
    assert(final(s)@ =~= old(s)@ + kind_segment(economy@, id.0, k));
}

impl World {
    pub open spec fn view(&self) -> WorldModel {
        WorldModel { characters: self.characters@, economy: self.economy@, social: self.social@ }
    }

    pub open spec fn wf(&self) -> bool {
        world_wf(self@)
    }

    /// FNV-1a over the three owners' canonical bytes.
    pub fn hash(&self) -> (r: u64)
        ensures
            r == world_hash_spec(self@),
    {
        let mut hasher = Fnv1a::start();
        self.characters.hash_into(&mut hasher);
        self.economy.hash_into(&mut hasher);
        self.social.hash_into(&mut hasher);
        proof {
            let w = self@;
            lemma_fnv_fold_concat(FNV_OFFSET, character_bytes(w.characters), economy_bytes(w.economy));
            lemma_fnv_fold_concat(
                FNV_OFFSET,
                character_bytes(w.characters) + economy_bytes(w.economy),
                social_bytes(w.social),
            );
        }
        hasher.finish()
    }

    /// Exact canonical serialization of the whole truth state: one line per
    /// fact, in deterministic owner/key order.
    pub fn canonical_state(&self) -> (r: Vec<String>)
        requires
            self.wf(),
        ensures
            r@.len() == canonical_lines(self@).len(),
            forall|i: int| 0 <= i < r@.len() ==> (#[trigger] r@[i])@ == canonical_lines(self@)[i],
    {
        let ghost w = self@;
        let ghost target = canonical_lines(w);
        let ghost nc = w.characters.records.len() as int;
        let ghost ns = w.economy.sites.len() as int;
        let ghost ncl = w.social.records.len() as int;
        let mut lines: Vec<String> = Vec::new();
        let chars = self.characters.iter();
        let mut i: usize = 0;
        while i < chars.len()
            invariant
                self.wf(),
                w == self@,
                target == canonical_lines(w),
                nc == w.characters.records.len(),
                chars@.len() == nc,
                forall|j: int|
                    0 <= j < chars@.len() ==> (#[trigger] chars@[j]).0.0 == w.characters.records[j].id
                        && chars@[j].1@ == w.characters.records[j].points,
                i <= chars@.len(),
                lines@.len() == i,
                forall|j: int| 0 <= j < i ==> (#[trigger] lines@[j])@ == target[j],
            decreases chars@.len() - i,
        {
            let (id, stamina) = chars[i];
            let mut line = String::new();
            push_str(&mut line, "character C");
            push_decimal(&mut line, id.0);
            push_str(&mut line, " stamina=");
            push_decimal(&mut line, stamina.points() as u64);
            kind_segment_into(&mut line, &self.economy, id, ResourceKind::Fodder);
            kind_segment_into(&mut line, &self.economy, id, ResourceKind::Food);
            kind_segment_into(&mut line, &self.economy, id, ResourceKind::Timber);
            proof {
                assert(line@ =~= character_line(w.economy, w.characters.records[i as int]));
                assert(target[i as int] == character_line(w.economy, w.characters.records[i as int]));
            }
            lines.push(line);
            i = i + 1;
        }
        let sites = self.economy.sites_iter();
        let mut j: usize = 0;
        while j < sites.len()
            invariant
                w == self@,
                target == canonical_lines(w),
                nc == w.characters.records.len(),
                ns == w.economy.sites.len(),
                sites@.len() == ns,
                forall|q: int|
                    0 <= q < sites@.len() ==> {
                        let s = w.economy.sites[q];
                        &&& (#[trigger] sites@[q]).0.0 == s.id
                        &&& sites@[q].1 == s.tier
                        &&& sites@[q].2 == s.kind
                        &&& sites@[q].3@ == s.stock
                    },
                j <= sites@.len(),
                lines@.len() == nc + j,
                forall|q: int| 0 <= q < nc + j ==> (#[trigger] lines@[q])@ == target[q],
            decreases sites@.len() - j,
        {
            let (id, tier, kind, stock) = sites[j];
            let mut line = String::new();
            push_str(&mut line, "site S");
            push_decimal(&mut line, id.0);
            push_str(&mut line, " tier=");
            push_str(&mut line, tier.code());
            push_str(&mut line, " kind=");
            push_str(&mut line, kind.code());
            push_str(&mut line, " stock_g=");
            push_decimal(&mut line, stock.grams());
            proof {
                assert(line@ =~= site_line(w.economy.sites[j as int]));
                assert(target[nc + j] == site_line(w.economy.sites[j as int]));
            }
            lines.push(line);
            j = j + 1;
        }
        let claims = self.social.claims_iter();
        let mut k: usize = 0;
        while k < claims.len()
            invariant
                w == self@,
                target == canonical_lines(w),
                nc == w.characters.records.len(),
                ns == w.economy.sites.len(),
                ncl == w.social.records.len(),
                claims@.len() == ncl,
                forall|q: int|
                    0 <= q < claims@.len() ==> {
                        let c = w.social.records[q];
                        &&& (#[trigger] claims@[q]).0.0 == c.id
                        &&& claims@[q].1.0 == c.holder
                        &&& claims@[q].2.0 == c.site
                        &&& claims@[q].3 == c.witnessed
                    },
                k <= claims@.len(),
                lines@.len() == nc + ns + k,
                forall|q: int| 0 <= q < nc + ns + k ==> (#[trigger] lines@[q])@ == target[q],
            decreases claims@.len() - k,
        {
            let (id, holder, site, witnessed) = claims[k];
            let mut line = String::new();
            push_str(&mut line, "claim K");
            push_decimal(&mut line, id.0);
            push_str(&mut line, " holder=C");
            push_decimal(&mut line, holder.0);
            push_str(&mut line, " site=S");
            push_decimal(&mut line, site.0);
            push_str(&mut line, " witnessed=");
            push_str(&mut line, if witnessed { "true" } else { "false" });
            proof {
                assert(line@ =~= claim_line(w.social.records[k as int]));
                assert(target[nc + ns + k] == claim_line(w.social.records[k as int]));
            }
            lines.push(line);
            k = k + 1;
        }
        let mut line = String::new();
        push_str(&mut line, "revisions character=");
        push_decimal(&mut line, self.characters.revision());
        push_str(&mut line, " economy=");
        push_decimal(&mut line, self.economy.revision());
        push_str(&mut line, " social=");
        push_decimal(&mut line, self.social.revision());
        proof {
            assert(line@ =~= revisions_line(w));
            assert(target.len() == nc + ns + ncl + 1);
            assert(target[nc + ns + ncl] == revisions_line(w));
        }
        lines.push(line);
        lines
    }

    /// An independent copy of the whole state.
    /// Seeds a world from three entry lists whose ids each strictly
    /// increase and whose site stock sums within `u64`: every owner is
    /// well formed with its counters at zero, and the world's total mass
    /// is the seeded stock.
    pub fn seed<const A: usize, const B: usize, const C: usize>(
        characters: [(CharacterId, Stamina); A],
        sites: [(SiteId, InfraTier, ResourceKind, MassGrams); B],
        claims: [(ClaimId, CharacterId, SiteId, bool); C],
    ) -> (r: World)
        requires
            increasing(characters@.map_values(|e: (CharacterId, Stamina)| e.0.0)),
            increasing(sites@.map_values(|e: (SiteId, InfraTier, ResourceKind, MassGrams)| e.0.0)),
            increasing(claims@.map_values(|e: (ClaimId, CharacterId, SiteId, bool)| e.0.0)),
            seeded_mass(sites@) <= u64::MAX,
        ensures
            world_wf(r@),
            total_mass_spec(r@.economy) == seeded_mass(sites@),
            r@ == seeded_world(characters@, sites@, claims@),
    {
        proof {
            lemma_increasing_no_duplicate(characters@.map_values(|e: (CharacterId, Stamina)| e.0.0));
            lemma_increasing_no_duplicate(
                sites@.map_values(|e: (SiteId, InfraTier, ResourceKind, MassGrams)| e.0.0),
            );
            lemma_increasing_no_duplicate(claims@.map_values(|e: (ClaimId, CharacterId, SiteId, bool)| e.0.0));
        }
        let ghost character_entries = characters@;
        let ghost site_entries = sites@;
        let ghost claim_entries = claims@;
        let characters = match CharacterOwner::seed(characters) {
            Ok(o) => o,
            Err(_) => unreached(),
        };
        let economy = match EconomyOwner::seed_sites(sites) {
            Ok(o) => o,
            Err(_) => unreached(),
        };
        let social = match SocialOwner::seed_claims(claims) {
            Ok(o) => o,
            Err(_) => unreached(),
        };
        proof {
            lemma_seeded_characters(character_entries, characters@);
            lemma_seeded_sites(site_entries, economy@);
            lemma_seeded_claims(claim_entries, social@);
            assert(economy@.holdings =~= Seq::<crate::economy::HoldingRecord>::empty());
            assert(economy@.holding_revisions =~= Seq::<crate::economy::HoldingRevision>::empty());
        }
        World { characters, economy, social }
    }

    pub fn duplicate(&self) -> (r: World)
        ensures
            r@ == self@,
    {
        World {
            characters: self.characters.duplicate(),
            economy: self.economy.duplicate(),
            social: self.social.duplicate(),
        }
    }
}

/// Cross-owner fixture integrity: total mass must fit its canonical `u64`
/// representation, and every claim must point at a known holder and site.
/// Duplicate IDs are already rejected at seed time by each owner.
pub fn validate_world_coherence(world: &World) -> (r: Result<(), FixtureFault>)
    requires
        world.wf(),
    ensures
        r == coherence_spec(world@),
{
    let ghost w = world@;
    if world.economy.checked_total_mass().is_none() {
        return Err(FixtureFault::TotalMassOverflow);
    }
    let claims = world.social.claims_iter();
    let mut i: usize = 0;
    while i < claims.len()
        invariant
            world.wf(),
            w == world@,
            total_mass_spec(w.economy) <= u64::MAX,
            claims@.len() == w.social.records.len(),
            forall|q: int|
                0 <= q < claims@.len() ==> {
                    let c = w.social.records[q];
                    &&& (#[trigger] claims@[q]).0.0 == c.id
                    &&& claims@[q].1.0 == c.holder
                    &&& claims@[q].2.0 == c.site
                },
            i <= claims@.len(),
            forall|q: int| 0 <= q < i ==> !(#[trigger] dangling_at(w)(q)),
        decreases claims@.len() - i,
    {
        let (claim, holder, site, _witnessed) = claims[i];
        let holder_known = world.characters.stamina(holder).is_some();
        let site_known = world.economy.tier(site).is_some();
        if !holder_known || !site_known {
            proof {
                assert(dangling_at(w)(i as int));
                lemma_first_index_where(w.social.records.len() as int, dangling_at(w), i as int);
            }
            if !holder_known {
                return Err(FixtureFault::ClaimHolderUnknown(claim));
            }
            return Err(FixtureFault::ClaimSiteUnknown(claim));
        }
        i = i + 1;
    }
    proof {
        lemma_no_index_where(w.social.records.len() as int, dangling_at(w));
    }
    Ok(())
}

} // verus!
