//! Social owner: the single writer of claims and witnessing.
//!
//! A gather never mutates social state — it only passes the read-only
//! witness gate (`WitnessPass`): the witnessed claim is a boolean gate,
//! and an unwitnessed claim can never yield mass. The witness verb is
//! this owner's one mutation path: `validate_witness_grant` (fallible,
//! read-only) followed by `apply_witness`, which consumes the
//! `WitnessGrant` token by value; the token is bound to the revision of
//! the one claim it names.

use vstd::prelude::*;

use crate::character::{duplicate_at, first_duplicate, lemma_first_duplicate};
use crate::fnv::{be8, fnv_fold, push_be8, push_bytes, Fnv1a};
use crate::keyed::{
    find_key, find_split, has_key, key_index, lemma_replace_at_key, lemma_sorted_unique,
    lemma_update_same_key, lookup, replace_at_key, sorted_by_key, Keyed,
};
use crate::vocab::{CharacterId, ClaimId, FixtureFault, RefusalReason, SiteId};

verus! {

/// One stored claim and the revision of that claim.
#[derive(Debug, Clone, Copy, PartialEq, Eq, Structural)]
pub struct ClaimRecord {
    pub id: u64,
    pub holder: u64,
    pub site: u64,
    pub witnessed: bool,
    pub revision: u64,
}

impl Keyed for ClaimRecord {
    open spec fn key(self) -> int {
        self.id as int
    }

    fn key_of(&self) -> (r: u128) {
        self.id as u128
    }
}

/// Abstract state of the social owner: claims in id order and the
/// owner-wide apply counter.
pub struct SocialModel {
    pub records: Seq<ClaimRecord>,
    pub revision: u64,
}

pub open spec fn social_wf(m: SocialModel) -> bool {
    &&& sorted_by_key(m.records)
    &&& forall|i: int| 0 <= i < m.records.len() ==> (#[trigger] m.records[i]).revision <= m.revision
}

pub open spec fn claim_of(m: SocialModel, id: u64) -> Option<ClaimRecord> {
    lookup(m.records, id as int)
}

pub open spec fn claim_revision(m: SocialModel, id: u64) -> u64 {
    match claim_of(m, id) {
        Some(c) => c.revision,
        None => 0,
    }
}

/// The gather verb's gate: the claim exists, is held by the actor, covers
/// the site, and is witnessed — checked in that order.
pub open spec fn witness_gate_spec(m: SocialModel, claim: u64, actor: u64, site: u64) -> Result<
    u64,
    RefusalReason,
> {
    match claim_of(m, claim) {
        None => Err(RefusalReason::UnknownClaim),
        Some(c) => if c.holder != actor {
            Err(RefusalReason::ClaimNotHeldByActor)
        } else if c.site != site {
            Err(RefusalReason::ClaimSiteMismatch)
        } else if !c.witnessed {
            Err(RefusalReason::ClaimNotWitnessed)
        } else {
            Ok(claim)
        },
    }
}

/// What a witness grant records.
#[derive(Debug, Clone, Copy, PartialEq, Eq, Structural)]
pub struct GrantFacts {
    pub claim: u64,
    pub from_revision: u64,
}

/// The witness verb's gate: the claim exists, the witness is not its
/// holder, and it is not already witnessed — checked in that order.
pub open spec fn witness_grant_spec(m: SocialModel, claim: u64, witness: u64) -> Result<
    GrantFacts,
    RefusalReason,
> {
    match claim_of(m, claim) {
        None => Err(RefusalReason::UnknownClaim),
        Some(c) => if c.holder == witness {
            Err(RefusalReason::CannotWitnessOwnClaim)
        } else if c.witnessed {
            Err(RefusalReason::ClaimAlreadyWitnessed)
        } else {
            Ok(GrantFacts { claim, from_revision: c.revision })
        },
    }
}

pub open spec fn grant_fresh_spec(m: SocialModel, g: GrantFacts) -> bool {
    claim_revision(m, g.claim) == g.from_revision
}

/// The social state after witnessing: the named claim becomes witnessed,
/// its revision and the owner counter each advance by one, and no other
/// claim changes.
pub open spec fn apply_witness_spec(m: SocialModel, g: GrantFacts) -> SocialModel {
    SocialModel {
        records: Seq::new(
            m.records.len(),
            |i: int|
                if m.records[i].id == g.claim {
                    ClaimRecord {
                        witnessed: true,
                        revision: (m.records[i].revision + 1) as u64,
                        ..m.records[i]
                    }
                } else {
                    m.records[i]
                },
        ),
        revision: (m.revision + 1) as u64,
    }
}

/// After witnessing, the named claim is witnessed with its revision one
/// higher, and every other claim reads as before.
pub proof fn lemma_apply_witness_effect(m: SocialModel, g: GrantFacts)
    requires
        social_wf(m),
        claim_of(m, g.claim) is Some,
    ensures
        claim_of(apply_witness_spec(m, g), g.claim) == Some(
            ClaimRecord {
                witnessed: true,
                revision: (claim_of(m, g.claim).unwrap().revision + 1) as u64,
                ..claim_of(m, g.claim).unwrap()
            },
        ),
        forall|id: u64| id != g.claim ==> #[trigger] claim_of(apply_witness_spec(m, g), id) == claim_of(m, id),
{
    lemma_sorted_unique(m.records);
    let i = key_index(m.records, g.claim as int);
    let rec = m.records[i];
    let new_rec = ClaimRecord { witnessed: true, revision: (rec.revision + 1) as u64, ..rec };
    lemma_update_same_key(m.records, i, new_rec);
    let target = apply_witness_spec(m, g);
    assert forall|j: int| 0 <= j < m.records.len() implies target.records[j] == m.records.update(
        i,
        new_rec,
    )[j] by {
        if j != i {
            assert(m.records[j].key() != m.records[i].key());
        }
    }
    assert(target.records =~= m.records.update(i, new_rec));
}

/// Witnessing keeps the owner well formed.
pub proof fn lemma_apply_witness_keeps_wf(m: SocialModel, g: GrantFacts)
    requires
        social_wf(m),
        claim_of(m, g.claim) is Some,
        m.revision < u64::MAX,
    ensures
        social_wf(apply_witness_spec(m, g)),
        apply_witness_spec(m, g).revision == m.revision + 1,
{
    lemma_sorted_unique(m.records);
    let i = key_index(m.records, g.claim as int);
    let rec = m.records[i];
    let new_rec = ClaimRecord { witnessed: true, revision: (rec.revision + 1) as u64, ..rec };
    lemma_update_same_key(m.records, i, new_rec);
    let target = apply_witness_spec(m, g);
    assert forall|j: int| 0 <= j < m.records.len() implies target.records[j] == m.records.update(
        i,
        new_rec,
    )[j] by {
        if j != i {
            assert(m.records[j].key() != m.records[i].key());
        }
    }
    assert(target.records =~= m.records.update(i, new_rec));
    assert forall|j: int| 0 <= j < target.records.len() implies (#[trigger] target.records[j]).revision
        <= target.revision by {
        if j != i {
            assert(target.records[j] == m.records[j]);
        }
    }
}

pub open spec fn claim_bytes(c: ClaimRecord) -> Seq<u8> {
    seq![0x63u8, 0x6cu8, 0x6du8] + be8(c.id) + be8(c.holder) + be8(c.site) + seq![
        if c.witnessed {
            1u8
        } else {
            0u8
        },
    ]
}

pub open spec fn claims_bytes(s: Seq<ClaimRecord>) -> Seq<u8>
    decreases s.len(),
{
    if s.len() == 0 {
        Seq::empty()
    } else {
        claims_bytes(s.drop_last()) + claim_bytes(s.last())
    }
}

/// The bytes this owner contributes to the world hash: every claim in id
/// order, then the owner counter.
pub open spec fn social_bytes(m: SocialModel) -> Seq<u8> {
    claims_bytes(m.records) + seq![0x73u8, 0x6fu8, 0x63u8, 0x2du8, 0x72u8, 0x65u8, 0x76u8] + be8(
        m.revision,
    )
}

pub struct SocialOwner {
    records: Vec<ClaimRecord>,
    revision: u64,
}

/// Proof that the witness gate was passed for a claim.
pub struct WitnessPass {
    claim: ClaimId,
}

impl WitnessPass {
    pub closed spec fn view(&self) -> u64 {
        self.claim.0
    }

    pub fn claim(&self) -> (r: ClaimId)
        ensures
            r.0 == self@,
    {
        self.claim
    }
}

/// Proof that witnessing a claim was validated against a specific
/// revision of that claim.
pub struct WitnessGrant {
    claim: ClaimId,
    from_revision: u64,
}

impl WitnessGrant {
    pub closed spec fn view(&self) -> GrantFacts {
        GrantFacts { claim: self.claim.0, from_revision: self.from_revision }
    }

    pub fn claim(&self) -> (r: ClaimId)
        ensures
            r.0 == self@.claim,
    {
        self.claim
    }
}

impl SocialOwner {
    pub closed spec fn view(&self) -> SocialModel {
        SocialModel { records: self.records@, revision: self.revision }
    }

    pub open spec fn wf(&self) -> bool {
        social_wf(self@)
    }

    /// Seeding rejects duplicate IDs — no silent last-write-wins. On
    /// success every seeded claim is stored as given with revision zero,
    /// and nothing else is stored.
    pub fn seed_claims<const N: usize>(entries: [(ClaimId, CharacterId, SiteId, bool); N]) -> (r:
        Result<Self, FixtureFault>)
        ensures
            ({
                let ids = entries@.map_values(|e: (ClaimId, CharacterId, SiteId, bool)| e.0.0);
                match first_duplicate(ids) {
                    Some(j) => r == Err::<Self, FixtureFault>(
                        FixtureFault::DuplicateClaim(entries@[j].0),
                    ),
                    None => r is Ok,
                }
            }),
            r matches Ok(o) ==> {
                &&& o.wf()
                &&& o@.revision == 0
                &&& forall|k: u64|
                    #[trigger] claim_of(o@, k) == if exists|i: int|
                        0 <= i < N && (#[trigger] entries@[i]).0.0 == k {
                        let e = entries@[choose|i: int| 0 <= i < N && (#[trigger] entries@[i]).0.0 == k];
                        Some(
                            ClaimRecord {
                                id: k,
                                holder: e.1.0,
                                site: e.2.0,
                                witnessed: e.3,
                                revision: 0,
                            },
                        )
                    } else {
                        None::<ClaimRecord>
                    }
            },
    {
        let ghost ids = entries@.map_values(|e: (ClaimId, CharacterId, SiteId, bool)| e.0.0);
        let mut records: Vec<ClaimRecord> = Vec::new();
        let mut n: usize = 0;
        while n < N
            invariant
                n <= N,
                ids == entries@.map_values(|e: (ClaimId, CharacterId, SiteId, bool)| e.0.0),
                sorted_by_key(records@),
                forall|i: int| 0 <= i < records@.len() ==> (#[trigger] records@[i]).revision == 0,
                forall|k: int| 0 <= k < n ==> !duplicate_at(ids, k),
                forall|k: u64|
                    #[trigger] lookup(records@, k as int) == if exists|i: int|
                        0 <= i < n && (#[trigger] entries@[i]).0.0 == k {
                        let e = entries@[choose|i: int| 0 <= i < n && (#[trigger] entries@[i]).0.0 == k];
                        Some(
                            ClaimRecord {
                                id: k,
                                holder: e.1.0,
                                site: e.2.0,
                                witnessed: e.3,
                                revision: 0,
                            },
                        )
                    } else {
                        None::<ClaimRecord>
                    },
            decreases N - n,
        {
            let (id, holder, site, witnessed) = entries[n];
            let found = find_key(&records, id.0 as u128);
            if found.is_some() {
                proof {
                    let i = choose|i: int| 0 <= i < n && (#[trigger] entries@[i]).0.0 == id.0;
                    assert(ids[i] == ids[n as int]);
                    assert(duplicate_at(ids, n as int));
                    lemma_first_duplicate(ids, n as int);
                }
                return Err(FixtureFault::DuplicateClaim(id));
            }
            let pos = find_split(&records, id.0 as u128);
            let rec = ClaimRecord { id: id.0, holder: holder.0, site: site.0, witnessed, revision: 0 };
            let ghost before = records@;
            proof {
                lemma_replace_at_key(before, id.0 as int, Some(rec));
                lemma_sorted_unique(before);
                if pos < before.len() && before[pos as int].key() == id.0 {
                    assert(has_key(before, id.0 as int));
                }
            }
            records.insert(pos, rec);
            proof {
                assert(records@ =~= replace_at_key(before, id.0 as int, Some(rec)));
                assert(!duplicate_at(ids, n as int)) by {
                    if duplicate_at(ids, n as int) {
                        let i = choose|i: int| 0 <= i < n && ids[i] == ids[n as int];
                        assert(entries@[i].0.0 == id.0);
                        assert(lookup(before, id.0 as int) is Some);
                    }
                }
                assert forall|i: int| 0 <= i < records@.len() implies (#[trigger] records@[i]).revision
                    == 0 by {
                    if i < pos {
                        assert(records@[i] == before[i]);
                    } else if i > pos {
                        assert(records@[i] == before[i - 1]);
                    }
                }
                assert forall|k: u64|
                    #[trigger] lookup(records@, k as int) == if exists|i: int|
                        0 <= i < n + 1 && (#[trigger] entries@[i]).0.0 == k {
                        let e = entries@[choose|i: int|
                            0 <= i < n + 1 && (#[trigger] entries@[i]).0.0 == k];
                        Some(
                            ClaimRecord {
                                id: k,
                                holder: e.1.0,
                                site: e.2.0,
                                witnessed: e.3,
                                revision: 0,
                            },
                        )
                    } else {
                        None::<ClaimRecord>
                    } by {
                    if k == id.0 {
                        assert(entries@[n as int].0.0 == k);
                        let c = choose|i: int| 0 <= i < n + 1 && (#[trigger] entries@[i]).0.0 == k;
                        if c < n {
                            assert(ids[c] == ids[n as int]);
                            assert(duplicate_at(ids, n as int));
                        }
                    } else {
                        if exists|i: int| 0 <= i < n + 1 && (#[trigger] entries@[i]).0.0 == k {
                            let c = choose|i: int| 0 <= i < n + 1 && (#[trigger] entries@[i]).0.0 == k;
                            assert(c < n);
                            assert(exists|i: int| 0 <= i < n && (#[trigger] entries@[i]).0.0 == k);
                            let c2 = choose|i: int| 0 <= i < n && (#[trigger] entries@[i]).0.0 == k;
                            if c != c2 {
                                if c < c2 {
                                    assert(ids[c] == ids[c2]);
                                    assert(duplicate_at(ids, c2));
                                } else {
                                    assert(ids[c2] == ids[c]);
                                    assert(duplicate_at(ids, c));
                                }
                            }
                        } else {
                            assert(!exists|i: int| 0 <= i < n && (#[trigger] entries@[i]).0.0 == k);
                        }
                    }
                }
            }
            n = n + 1;
        }
        proof {
            assert forall|j: int| 0 <= j < ids.len() implies !#[trigger] duplicate_at(ids, j) by {}
            assert(first_duplicate(ids) is None);
        }
        let owner = SocialOwner { records, revision: 0 };
        proof {
            assert forall|k: u64|
                #[trigger] claim_of(owner@, k) == lookup(records@, k as int) by {}
        }
        Ok(owner)
    }

    fn find(&self, claim: ClaimId) -> (r: Option<usize>)
        requires
            self.wf(),
        ensures
            r is None <==> claim_of(self@, claim.0) is None,
            r matches Some(i) ==> i < self@.records.len() && claim_of(self@, claim.0) == Some(
                self@.records[i as int],
            ) && self@.records[i as int].id == claim.0,
    {
        proof {
            lemma_sorted_unique(self@.records);
        }
        find_key(&self.records, claim.0 as u128)
    }

    pub fn claim_site(&self, claim: ClaimId) -> (r: Option<SiteId>)
        requires
            self.wf(),
        ensures
            r is Some <==> claim_of(self@, claim.0) is Some,
            r matches Some(s) ==> claim_of(self@, claim.0).unwrap().site == s.0,
    {
        match self.find(claim) {
            Some(i) => Some(SiteId(self.records[i].site)),
            None => None,
        }
    }

    pub fn revision(&self) -> (r: u64)
        ensures
            r == self@.revision,
    {
        self.revision
    }

    /// Every claim as (claim, holder, site, witnessed), in claim-id order.
    pub fn claims_iter(&self) -> (r: Vec<(ClaimId, CharacterId, SiteId, bool)>)
        ensures
            r@.len() == self@.records.len(),
            forall|i: int|
                0 <= i < r@.len() ==> {
                    let c = self@.records[i];
                    &&& (#[trigger] r@[i]).0.0 == c.id
                    &&& r@[i].1.0 == c.holder
                    &&& r@[i].2.0 == c.site
                    &&& r@[i].3 == c.witnessed
                },
    {
        let mut out: Vec<(ClaimId, CharacterId, SiteId, bool)> = Vec::new();
        let mut i: usize = 0;
        while i < self.records.len()
            invariant
                i <= self@.records.len(),
                out@.len() == i,
                forall|j: int|
                    0 <= j < i ==> {
                        let c = self@.records[j];
                        &&& (#[trigger] out@[j]).0.0 == c.id
                        &&& out@[j].1.0 == c.holder
                        &&& out@[j].2.0 == c.site
                        &&& out@[j].3 == c.witnessed
                    },
            decreases self@.records.len() - i,
        {
            let c = self.records[i];
            out.push((ClaimId(c.id), CharacterId(c.holder), SiteId(c.site), c.witnessed));
            i = i + 1;
        }
        out
    }

    pub fn is_witnessed(&self, claim: ClaimId) -> (r: Option<bool>)
        requires
            self.wf(),
        ensures
            r is Some <==> claim_of(self@, claim.0) is Some,
            r matches Some(w) ==> claim_of(self@, claim.0).unwrap().witnessed == w,
    {
        match self.find(claim) {
            Some(i) => Some(self.records[i].witnessed),
            None => None,
        }
    }

    /// Read-only validation: the claim must exist, be held by the actor,
    /// cover the site, and be witnessed.
    pub fn validate_witness_gate(&self, claim: ClaimId, actor: CharacterId, site: SiteId) -> (r:
        Result<WitnessPass, RefusalReason>)
        requires
            self.wf(),
        ensures
            match r {
                Ok(p) => witness_gate_spec(self@, claim.0, actor.0, site.0) == Ok::<
                    u64,
                    RefusalReason,
                >(p@),
                Err(e) => witness_gate_spec(self@, claim.0, actor.0, site.0) == Err::<
                    u64,
                    RefusalReason,
                >(e),
            },
    {
        match self.find(claim) {
            None => Err(RefusalReason::UnknownClaim),
            Some(i) => {
                let state = self.records[i];
                if state.holder != actor.0 {
                    Err(RefusalReason::ClaimNotHeldByActor)
                } else if state.site != site.0 {
                    Err(RefusalReason::ClaimSiteMismatch)
                } else if !state.witnessed {
                    Err(RefusalReason::ClaimNotWitnessed)
                } else {
                    Ok(WitnessPass { claim })
                }
            },
        }
    }

    /// Read-only validation for the witness verb: the claim must exist,
    /// the witness must not be its holder, and it must not already be
    /// witnessed.
    pub fn validate_witness_grant(&self, claim: ClaimId, witness: CharacterId) -> (r: Result<
        WitnessGrant,
        RefusalReason,
    >)
        requires
            self.wf(),
        ensures
            match r {
                Ok(g) => witness_grant_spec(self@, claim.0, witness.0) == Ok::<
                    GrantFacts,
                    RefusalReason,
                >(g@),
                Err(e) => witness_grant_spec(self@, claim.0, witness.0) == Err::<
                    GrantFacts,
                    RefusalReason,
                >(e),
            },
    {
        match self.find(claim) {
            None => Err(RefusalReason::UnknownClaim),
            Some(i) => {
                let state = self.records[i];
                if state.holder == witness.0 {
                    Err(RefusalReason::CannotWitnessOwnClaim)
                } else if state.witnessed {
                    Err(RefusalReason::ClaimAlreadyWitnessed)
                } else {
                    Ok(WitnessGrant { claim, from_revision: state.revision })
                }
            },
        }
    }

    /// True when the token still matches the revision of its claim.
    pub fn grant_is_fresh(&self, grant: &WitnessGrant) -> (r: bool)
        requires
            self.wf(),
        ensures
            r == grant_fresh_spec(self@, grant@),
    {
        match self.find(grant.claim) {
            Some(i) => self.records[i].revision == grant.from_revision,
            None => grant.from_revision == 0,
        }
    }

    /// Consumes the token by value. The token must be fresh and name a
    /// stored claim; the owner counter must have room to advance.
    pub fn apply_witness(&mut self, grant: WitnessGrant)
        requires
            old(self).wf(),
            grant_fresh_spec(old(self)@, grant@),
            claim_of(old(self)@, grant@.claim) is Some,
            old(self)@.revision < u64::MAX,
        ensures
            final(self).wf(),
            final(self)@ == apply_witness_spec(old(self)@, grant@),
    {
        let ghost old_m = self@;
        let i = match self.find(grant.claim) {
            Some(i) => i,
            None => {
                proof {
                    assert(false);
                }
                return;
            },
        };
        let rec = self.records[i];
        let new_rec = ClaimRecord { witnessed: true, revision: rec.revision + 1, ..rec };
        proof {
            lemma_sorted_unique(old_m.records);
            assert(old_m.records[i as int].revision <= old_m.revision);
        }
        self.records.set(i, new_rec);
        self.revision = self.revision + 1;
        proof {
            lemma_update_same_key(old_m.records, i as int, new_rec);
            let target = apply_witness_spec(old_m, grant@);
            assert forall|j: int| 0 <= j < old_m.records.len() implies target.records[j]
                == self@.records[j] by {
                if j != i {
                    assert(old_m.records[j].key() != old_m.records[i as int].key());
                }
            }
            assert(self@.records =~= target.records);
            assert forall|j: int| 0 <= j < self@.records.len() implies (#[trigger] self@.records[j]).revision
                <= self@.revision by {
                if j != i {
                    assert(self@.records[j] == old_m.records[j]);
                }
            }
        }
    }

    /// An independent copy of this owner's state.
    pub fn duplicate(&self) -> (r: Self)
        ensures
            r@ == self@,
    {
        let mut records = Vec::new();
        let mut i: usize = 0;
        while i < self.records.len()
            invariant
                i <= self.records@.len(),
                records@ == self.records@.take(i as int),
            decreases self.records@.len() - i,
        {
            records.push(self.records[i]);
            proof {
                assert(self.records@.take(i as int + 1) =~= self.records@.take(i as int).push(self.records@[i as int]));
            }
            i = i + 1;
        }
        assert(self.records@.take(self.records@.len() as int) =~= self.records@);
        SocialOwner { records, revision: self.revision }
    }

    /// Appends the bytes this owner contributes to the world hash.
    pub fn encode_into(&self, out: &mut Vec<u8>)
        ensures
            final(out)@ == old(out)@ + social_bytes(self@),
    {
        let ghost start = out@;
        let mut i: usize = 0;
        while i < self.records.len()
            invariant
                i <= self@.records.len(),
                out@ == start + claims_bytes(self@.records.take(i as int)),
            decreases self@.records.len() - i,
        {
            let c = self.records[i];
            push_bytes(out, &[0x63u8, 0x6cu8, 0x6du8]);
            push_be8(out, c.id);
            push_be8(out, c.holder);
            push_be8(out, c.site);
            out.push(if c.witnessed { 1u8 } else { 0u8 });
            proof {
                let t = self@.records.take(i as int + 1);
                assert(t.drop_last() =~= self@.records.take(i as int));
                assert(t.last() == c);
                assert(out@ =~= start + claims_bytes(t));
            }
            i = i + 1;
        }
        proof {
            assert(self@.records.take(self@.records.len() as int) =~= self@.records);
        }
        push_bytes(out, &[0x73u8, 0x6fu8, 0x63u8, 0x2du8, 0x72u8, 0x65u8, 0x76u8]);
        push_be8(out, self.revision);
        proof {
            assert(out@ =~= start + social_bytes(self@));
        }
    }

    /// Feeds this owner's canonical bytes to `hasher`.
    pub fn hash_into(&self, hasher: &mut Fnv1a)
        ensures
            final(hasher)@ == fnv_fold(old(hasher)@, social_bytes(self@)),
    {
        let mut bytes: Vec<u8> = Vec::new();
        self.encode_into(&mut bytes);
        assert(bytes@ =~= social_bytes(self@));
        hasher.update(bytes.as_slice());
    }
}

} // verus!
