//! Character owner: the single writer of character bodies (stamina).
//!
//! The only mutation path is `validate_spend` (fallible, read-only)
//! followed by `apply_spend`, which consumes the proof token by value.
//! The token carries the revision of the one character it was minted
//! against, so spends for different characters never conflict; applying a
//! stale token is a boundary bug and is excluded by `apply_spend`'s
//! contract.
//!
//! This owner is verb-agnostic: the cost arrives as a parameter decided by
//! the boundary's verb policy. The owner enforces only resource semantics:
//! the actor exists and has exact headroom — no clamping.

use vstd::prelude::*;

use crate::fnv::{be8, fnv_fold, push_be8, push_bytes, Fnv1a};
use crate::keyed::{
    find_key, find_split, has_key, key_index, lemma_key_index, lemma_replace_at_key, lemma_sorted_unique,
    lemma_update_same_key, lookup, replace_at_key, sorted_by_key, split_index, Keyed,
};
use crate::vocab::{CharacterId, FixtureFault, RefusalReason, Stamina};

verus! {

/// One character's stored stamina and the revision of that character.
#[derive(Debug, Clone, Copy, PartialEq, Eq, Structural)]
pub struct StaminaRecord {
    pub id: u64,
    pub points: u8,
    pub revision: u64,
}

impl Keyed for StaminaRecord {
    open spec fn key(self) -> int {
        self.id as int
    }

    fn key_of(&self) -> (r: u128) {
        self.id as u128
    }
}

/// Abstract state of the character owner: the records in id order and the
/// owner-wide apply counter.
pub struct CharacterModel {
    pub records: Seq<StaminaRecord>,
    pub revision: u64,
}

pub open spec fn character_wf(m: CharacterModel) -> bool {
    &&& sorted_by_key(m.records)
    &&& forall|i: int|
        0 <= i < m.records.len() ==> (#[trigger] m.records[i]).points <= 100 && m.records[i].revision
            <= m.revision
}

/// Stamina points of `id`, if it exists.
pub open spec fn stamina_of(m: CharacterModel, id: u64) -> Option<u8> {
    match lookup(m.records, id as int) {
        Some(r) => Some(r.points),
        None => None,
    }
}

/// Revision of one character; 0 for a character never stored.
pub open spec fn character_revision(m: CharacterModel, id: u64) -> u64 {
    match lookup(m.records, id as int) {
        Some(r) => r.revision,
        None => 0,
    }
}

/// What a spend token records.
#[derive(Debug, Clone, Copy, PartialEq, Eq, Structural)]
pub struct SpendFacts {
    pub id: u64,
    pub cost: u8,
    pub from_revision: u64,
}

/// Read-only spend validation: the actor must exist and must have exact
/// headroom for the cost.
pub open spec fn validate_spend_spec(m: CharacterModel, id: u64, cost: u8) -> Result<
    SpendFacts,
    RefusalReason,
> {
    match stamina_of(m, id) {
        None => Err(RefusalReason::UnknownActor),
        Some(points) => if points < cost {
            Err(RefusalReason::InsufficientStamina)
        } else {
            Ok(SpendFacts { id, cost, from_revision: character_revision(m, id) })
        },
    }
}

pub open spec fn spend_fresh_spec(m: CharacterModel, s: SpendFacts) -> bool {
    character_revision(m, s.id) == s.from_revision
}

/// The character state after an exact spend: the actor loses exactly the
/// cost, its revision and the owner counter each advance by one, and no
/// other record changes.
pub open spec fn apply_spend_spec(m: CharacterModel, s: SpendFacts) -> CharacterModel {
    CharacterModel {
        records: Seq::new(
            m.records.len(),
            |i: int|
                if m.records[i].id == s.id {
                    StaminaRecord {
                        id: s.id,
                        points: (m.records[i].points - s.cost) as u8,
                        revision: (m.records[i].revision + 1) as u64,
                    }
                } else {
                    m.records[i]
                },
        ),
        revision: (m.revision + 1) as u64,
    }
}

/// After a spend, the actor's stamina is lower by exactly the cost and
/// every other character reads as before.
pub proof fn lemma_apply_spend_effect(m: CharacterModel, s: SpendFacts)
    requires
        character_wf(m),
        stamina_of(m, s.id) matches Some(p) && s.cost <= p,
    ensures
        stamina_of(apply_spend_spec(m, s), s.id) == Some((stamina_of(m, s.id).unwrap() - s.cost) as u8),
        forall|id: u64| id != s.id ==> #[trigger] stamina_of(apply_spend_spec(m, s), id) == stamina_of(m, id),
{
    lemma_sorted_unique(m.records);
    let i = key_index(m.records, s.id as int);
    let rec = m.records[i];
    let new_rec = StaminaRecord {
        id: s.id,
        points: (rec.points - s.cost) as u8,
        revision: (rec.revision + 1) as u64,
    };
    lemma_update_same_key(m.records, i, new_rec);
    let target = apply_spend_spec(m, s);
    assert forall|j: int| 0 <= j < m.records.len() implies target.records[j] == m.records.update(
        i,
        new_rec,
    )[j] by {
        if j != i {
            assert(m.records[j].key() != m.records[i].key());
        }
    }
    assert(target.records =~= m.records.update(i, new_rec));
}

/// A spend keeps the owner well formed: the actor's points stay in range
/// and every revision stays within the advanced owner counter.
pub proof fn lemma_apply_spend_keeps_wf(m: CharacterModel, s: SpendFacts)
    requires
        character_wf(m),
        stamina_of(m, s.id) matches Some(p) && s.cost <= p,
        m.revision < u64::MAX,
    ensures
        character_wf(apply_spend_spec(m, s)),
        apply_spend_spec(m, s).revision == m.revision + 1,
{
    lemma_sorted_unique(m.records);
    let i = key_index(m.records, s.id as int);
    let rec = m.records[i];
    let new_rec = StaminaRecord {
        id: s.id,
        points: (rec.points - s.cost) as u8,
        revision: (rec.revision + 1) as u64,
    };
    lemma_update_same_key(m.records, i, new_rec);
    let target = apply_spend_spec(m, s);
    assert forall|j: int| 0 <= j < m.records.len() implies target.records[j] == m.records.update(
        i,
        new_rec,
    )[j] by {
        if j != i {
            assert(m.records[j].key() != m.records[i].key());
        }
    }
    assert(target.records =~= m.records.update(i, new_rec));
    assert forall|j: int| 0 <= j < target.records.len() implies (#[trigger] target.records[j]).points
        <= 100 && target.records[j].revision <= target.revision by {
        if j != i {
            assert(target.records[j] == m.records[j]);
        }
    }
}

pub open spec fn record_bytes(r: StaminaRecord) -> Seq<u8> {
    seq![0x63u8, 0x68u8, 0x72u8] + be8(r.id) + seq![r.points]
}

pub open spec fn records_bytes(s: Seq<StaminaRecord>) -> Seq<u8>
    decreases s.len(),
{
    if s.len() == 0 {
        Seq::empty()
    } else {
        records_bytes(s.drop_last()) + record_bytes(s.last())
    }
}

/// The bytes this owner contributes to the world hash: every character in
/// id order, then the owner counter. Entity revisions are bookkeeping and
/// are not hashed.
pub open spec fn character_bytes(m: CharacterModel) -> Seq<u8> {
    records_bytes(m.records) + seq![0x63u8, 0x68u8, 0x72u8, 0x2du8, 0x72u8, 0x65u8, 0x76u8] + be8(
        m.revision,
    )
}

/// Duplicate at position `j`: the id occurred earlier.
pub open spec fn duplicate_at(ids: Seq<u64>, j: int) -> bool {
    exists|i: int| 0 <= i < j && ids[i] == ids[j]
}

/// Index of the first entry whose id already occurred.
pub open spec fn first_duplicate(ids: Seq<u64>) -> Option<int> {
    if exists|j: int| 0 <= j < ids.len() && #[trigger] duplicate_at(ids, j) {
        Some(
            choose|j: int|
                0 <= j < ids.len() && #[trigger] duplicate_at(ids, j) && forall|k: int|
                    0 <= k < j ==> !duplicate_at(ids, k),
        )
    } else {
        None
    }
}

/// A first duplicate, when one exists, is the least duplicate index.
pub proof fn lemma_first_duplicate(ids: Seq<u64>, j: int)
    requires
        0 <= j < ids.len(),
        duplicate_at(ids, j),
        forall|k: int| 0 <= k < j ==> !duplicate_at(ids, k),
    ensures
        first_duplicate(ids) == Some(j),
{
    assert(0 <= j < ids.len() && duplicate_at(ids, j));
    let c = choose|c: int|
        0 <= c < ids.len() && #[trigger] duplicate_at(ids, c) && forall|k: int|
            0 <= k < c ==> !duplicate_at(ids, k);
    assert(0 <= c < ids.len() && duplicate_at(ids, c) && forall|k: int|
        0 <= k < c ==> !duplicate_at(ids, k));
    if c < j {
        assert(!duplicate_at(ids, c));
    } else if j < c {
        assert(!duplicate_at(ids, j));
    }
}

pub struct CharacterOwner {
    records: Vec<StaminaRecord>,
    revision: u64,
}

/// Proof that a stamina spend was validated against a specific revision of
/// one character. Private fields: only the character owner builds one.
pub struct StaminaSpend {
    id: CharacterId,
    cost: u8,
    from_revision: u64,
}

impl StaminaSpend {
    pub closed spec fn view(&self) -> SpendFacts {
        SpendFacts { id: self.id.0, cost: self.cost, from_revision: self.from_revision }
    }

    pub fn cost(&self) -> (r: u8)
        ensures
            r == self@.cost,
    {
        self.cost
    }
}

impl CharacterOwner {
    pub closed spec fn view(&self) -> CharacterModel {
        CharacterModel { records: self.records@, revision: self.revision }
    }

    pub open spec fn wf(&self) -> bool {
        character_wf(self@)
    }

    /// Seeding rejects duplicate IDs — no silent last-write-wins. On
    /// success every seeded character is stored with its stamina, every
    /// revision is zero, and nothing else is stored.
    pub fn seed<const N: usize>(entries: [(CharacterId, Stamina); N]) -> (r: Result<
        Self,
        FixtureFault,
    >)
        ensures
            ({
                let ids = entries@.map_values(|e: (CharacterId, Stamina)| e.0.0);
                match first_duplicate(ids) {
                    Some(j) => r == Err::<Self, FixtureFault>(
                        FixtureFault::DuplicateCharacter(entries@[j].0),
                    ),
                    None => r is Ok,
                }
            }),
            r matches Ok(o) ==> {
                &&& o.wf()
                &&& o@.revision == 0
                &&& forall|i: int| 0 <= i < o@.records.len() ==> (#[trigger] o@.records[i]).revision == 0
                &&& forall|k: u64|
                    #[trigger] stamina_of(o@, k) == if exists|i: int|
                        0 <= i < N && (#[trigger] entries@[i]).0.0 == k {
                        Some(
                            entries@[choose|i: int| 0 <= i < N && (#[trigger] entries@[i]).0.0 == k].1@,
                        )
                    } else {
                        None::<u8>
                    }
            },
    {
        let ghost ids = entries@.map_values(|e: (CharacterId, Stamina)| e.0.0);
        let mut records: Vec<StaminaRecord> = Vec::new();
        let mut n: usize = 0;
        while n < N
            invariant
                n <= N,
                ids == entries@.map_values(|e: (CharacterId, Stamina)| e.0.0),
                sorted_by_key(records@),
                forall|i: int| 0 <= i < records@.len() ==> (#[trigger] records@[i]).revision == 0
                    && records@[i].points <= 100,
                forall|k: int| 0 <= k < n ==> !duplicate_at(ids, k),
                forall|k: u64|
                    #[trigger] lookup(records@, k as int) == if exists|i: int|
                        0 <= i < n && (#[trigger] entries@[i]).0.0 == k {
                        Some(
                            StaminaRecord {
                                id: k,
                                points: entries@[choose|i: int|
                                    0 <= i < n && (#[trigger] entries@[i]).0.0 == k].1@,
                                revision: 0,
                            },
                        )
                    } else {
                        None::<StaminaRecord>
                    },
            decreases N - n,
        {
            let (id, stamina) = entries[n];
            let points = stamina.points();
            let found = find_key(&records, id.0 as u128);
            if found.is_some() {
                proof {
                    let lk = lookup(records@, id.0 as int);
                    assert(lk is Some);
                    let i = choose|i: int| 0 <= i < n && (#[trigger] entries@[i]).0.0 == id.0;
                    assert(ids[i] == ids[n as int]);
                    assert(duplicate_at(ids, n as int));
                    lemma_first_duplicate(ids, n as int);
                }
                return Err(FixtureFault::DuplicateCharacter(id));
            }
            let pos = find_split(&records, id.0 as u128);
            let rec = StaminaRecord { id: id.0, points, revision: 0 };
            let ghost before = records@;
            proof {
                lemma_replace_at_key(before, id.0 as int, Some(rec));
                lemma_sorted_unique(before);
                assert(!has_key(before, id.0 as int));
                if pos < before.len() && before[pos as int].key() == id.0 {
                    assert(has_key(before, id.0 as int));
                }
            }
            records.insert(pos, rec);
            proof {
                assert(records@ =~= replace_at_key(before, id.0 as int, Some(rec)));
                assert(!duplicate_at(ids, n as int)) by {
                    if duplicate_at(ids, n as int) {
                        let i = choose|i: int| 0 <= i < n && ids[i] == ids[n as int];
                        assert(entries@[i].0.0 == id.0);
                        assert(lookup(before, id.0 as int) is Some);
                    }
                }
                assert forall|i: int| 0 <= i < records@.len() implies (#[trigger] records@[i]).revision
                    == 0 && records@[i].points <= 100 by {
                    if i < pos {
                        assert(records@[i] == before[i]);
                    } else if i > pos {
                        assert(records@[i] == before[i - 1]);
                    }
                }
                assert forall|k: u64|
                    #[trigger] lookup(records@, k as int) == if exists|i: int|
                        0 <= i < n + 1 && (#[trigger] entries@[i]).0.0 == k {
                        Some(
                            StaminaRecord {
                                id: k,
                                points: entries@[choose|i: int|
                                    0 <= i < n + 1 && (#[trigger] entries@[i]).0.0 == k].1@,
                                revision: 0,
                            },
                        )
                    } else {
                        None::<StaminaRecord>
                    } by {
                    if k == id.0 {
                        assert(entries@[n as int].0.0 == k);
                        let c = choose|i: int| 0 <= i < n + 1 && (#[trigger] entries@[i]).0.0 == k;
                        if c < n {
                            assert(ids[c] == ids[n as int]);
                            assert(duplicate_at(ids, n as int));
                        }
                    } else {
                        if exists|i: int| 0 <= i < n + 1 && (#[trigger] entries@[i]).0.0 == k {
                            let c = choose|i: int| 0 <= i < n + 1 && (#[trigger] entries@[i]).0.0 == k;
                            assert(c < n);
                            assert(exists|i: int| 0 <= i < n && (#[trigger] entries@[i]).0.0 == k);
                            let c2 = choose|i: int| 0 <= i < n && (#[trigger] entries@[i]).0.0 == k;
                            assert(0 <= c2 < n + 1 && entries@[c2].0.0 == k);
                            if c != c2 {
                                // both name k: then a duplicate occurred before n
                                if c < c2 {
                                    assert(ids[c] == ids[c2]);
                                    assert(duplicate_at(ids, c2));
                                } else {
                                    assert(ids[c2] == ids[c]);
                                    assert(duplicate_at(ids, c));
                                }
                            }
                        } else {
                            assert(!exists|i: int| 0 <= i < n && (#[trigger] entries@[i]).0.0 == k);
                        }
                    }
                }
            }
            n = n + 1;
        }
        proof {
            assert forall|j: int| 0 <= j < ids.len() implies !#[trigger] duplicate_at(ids, j) by {}
            assert(first_duplicate(ids) is None);
        }
        let owner = CharacterOwner { records, revision: 0 };
        proof {
            assert forall|k: u64|
                #[trigger] stamina_of(owner@, k) == if exists|i: int|
                    0 <= i < N && (#[trigger] entries@[i]).0.0 == k {
                    Some(entries@[choose|i: int| 0 <= i < N && (#[trigger] entries@[i]).0.0 == k].1@)
                } else {
                    None::<u8>
                } by {
                assert(lookup(records@, k as int) == lookup(owner@.records, k as int));
            }
        }
        Ok(owner)
    }

    pub fn stamina(&self, id: CharacterId) -> (r: Option<Stamina>)
        requires
            self.wf(),
        ensures
            r is Some <==> stamina_of(self@, id.0) is Some,
            r matches Some(s) ==> stamina_of(self@, id.0) == Some(s@),
    {
        match find_key(&self.records, id.0 as u128) {
            Some(i) => {
                let points = self.records[i].points;
                match Stamina::new(points) {
                    Some(s) => Some(s),
                    None => {
                        proof {
                            assert(self@.records[i as int].points <= 100);
                        }
                        None
                    },
                }
            },
            None => None,
        }
    }

    pub fn revision(&self) -> (r: u64)
        ensures
            r == self@.revision,
    {
        self.revision
    }

    /// Every character and its stamina, in id order.
    pub fn iter(&self) -> (r: Vec<(CharacterId, Stamina)>)
        requires
            self.wf(),
        ensures
            r@.len() == self@.records.len(),
            forall|i: int|
                0 <= i < r@.len() ==> (#[trigger] r@[i]).0.0 == self@.records[i].id && r@[i].1@
                    == self@.records[i].points,
    {
        let mut out: Vec<(CharacterId, Stamina)> = Vec::new();
        let mut i: usize = 0;
        while i < self.records.len()
            invariant
                self.wf(),
                i <= self@.records.len(),
                out@.len() == i,
                forall|j: int|
                    0 <= j < i ==> (#[trigger] out@[j]).0.0 == self@.records[j].id && out@[j].1@
                        == self@.records[j].points,
            decreases self@.records.len() - i,
        {
            let rec = self.records[i];
            proof {
                assert(self@.records[i as int].points <= 100);
            }
            match Stamina::new(rec.points) {
                Some(s) => out.push((CharacterId(rec.id), s)),
                None => {},
            }
            i = i + 1;
        }
        out
    }

    /// The revision one character's spend tokens are minted against.
    pub fn revision_of(&self, id: CharacterId) -> (r: u64)
        requires
            self.wf(),
        ensures
            r == character_revision(self@, id.0),
    {
        match find_key(&self.records, id.0 as u128) {
            Some(i) => self.records[i].revision,
            None => 0,
        }
    }

    /// Read-only validation: the actor must exist and must have exact
    /// headroom for the requested cost.
    pub fn validate_spend(&self, id: CharacterId, cost: u8) -> (r: Result<
        StaminaSpend,
        RefusalReason,
    >)
        requires
            self.wf(),
        ensures
            match r {
                Ok(s) => validate_spend_spec(self@, id.0, cost) == Ok::<SpendFacts, RefusalReason>(
                    s@,
                ),
                Err(e) => validate_spend_spec(self@, id.0, cost) == Err::<SpendFacts, RefusalReason>(e),
            },
    {
        match find_key(&self.records, id.0 as u128) {
            None => Err(RefusalReason::UnknownActor),
            Some(i) => {
                let rec = self.records[i];
                if rec.points < cost {
                    Err(RefusalReason::InsufficientStamina)
                } else {
                    Ok(StaminaSpend { id, cost, from_revision: rec.revision })
                }
            },
        }
    }

    /// True when the token still matches the revision of its character.
    pub fn spend_is_fresh(&self, spend: &StaminaSpend) -> (r: bool)
        requires
            self.wf(),
        ensures
            r == spend_fresh_spec(self@, spend@),
    {
        self.revision_of(spend.id) == spend.from_revision
    }

    /// Consumes the token by value. The token must be fresh and its actor
    /// able to pay; the owner counter must have room to advance.
    pub fn apply_spend(&mut self, spend: StaminaSpend)
        requires
            old(self).wf(),
            spend_fresh_spec(old(self)@, spend@),
            stamina_of(old(self)@, spend@.id) matches Some(p) && spend@.cost <= p,
            old(self)@.revision < u64::MAX,
        ensures
            final(self).wf(),
            final(self)@ == apply_spend_spec(old(self)@, spend@),
    {
        let ghost old_m = self@;
        let found = find_key(&self.records, spend.id.0 as u128);
        let i = match found {
            Some(i) => i,
            None => {
                proof {
                    assert(false);
                }
                return;
            },
        };
        let rec = self.records[i];
        let new_rec = StaminaRecord {
            id: rec.id,
            points: rec.points - spend.cost,
            revision: rec.revision + 1,
        };
        proof {
            lemma_sorted_unique(old_m.records);
            assert(old_m.records[i as int].revision <= old_m.revision);
        }
        self.records.set(i, new_rec);
        self.revision = self.revision + 1;
        proof {
            lemma_update_same_key(old_m.records, i as int, new_rec);
            let target = apply_spend_spec(old_m, spend@);
            assert forall|j: int| 0 <= j < old_m.records.len() implies target.records[j]
                == self@.records[j] by {
                if j != i {
                    assert(old_m.records[j].key() != old_m.records[i as int].key());
                    assert(old_m.records[j].id != spend@.id);
                }
            }
            assert(self@.records =~= target.records);
            assert forall|j: int| 0 <= j < self@.records.len() implies (#[trigger] self@.records[j]).points
                <= 100 && self@.records[j].revision <= self@.revision by {
                if j != i {
                    assert(self@.records[j] == old_m.records[j]);
                }
            }
        }
    }

    /// An independent copy of this owner's state.
    pub fn duplicate(&self) -> (r: Self)
        ensures
            r@ == self@,
    {
        let mut records = Vec::new();
        let mut i: usize = 0;
        while i < self.records.len()
            invariant
                i <= self.records@.len(),
                records@ == self.records@.take(i as int),
            decreases self.records@.len() - i,
        {
            records.push(self.records[i]);
            proof {
                assert(self.records@.take(i as int + 1) =~= self.records@.take(i as int).push(self.records@[i as int]));
            }
            i = i + 1;
        }
        assert(self.records@.take(self.records@.len() as int) =~= self.records@);
        CharacterOwner { records, revision: self.revision }
    }

    /// Appends the bytes this owner contributes to the world hash.
    pub fn encode_into(&self, out: &mut Vec<u8>)
        ensures
            final(out)@ == old(out)@ + character_bytes(self@),
    {
        let ghost start = out@;
        let mut i: usize = 0;
        while i < self.records.len()
            invariant
                i <= self@.records.len(),
                out@ == start + records_bytes(self@.records.take(i as int)),
            decreases self@.records.len() - i,
        {
            let rec = self.records[i];
            let ghost before = out@;
            push_bytes(out, &[0x63u8, 0x68u8, 0x72u8]);
            push_be8(out, rec.id);
            out.push(rec.points);
            proof {
                let t = self@.records.take(i as int + 1);
                assert(t.drop_last() =~= self@.records.take(i as int));
                assert(t.last() == rec);
                assert(out@ =~= start + records_bytes(t));
            }
            i = i + 1;
        }
        proof {
            assert(self@.records.take(self@.records.len() as int) =~= self@.records);
        }
        push_bytes(out, &[0x63u8, 0x68u8, 0x72u8, 0x2du8, 0x72u8, 0x65u8, 0x76u8]);
        push_be8(out, self.revision);
        proof {
            assert(out@ =~= start + character_bytes(self@));
        }
    }

    /// Feeds this owner's canonical bytes to `hasher`.
    pub fn hash_into(&self, hasher: &mut Fnv1a)
        ensures
            final(hasher)@ == fnv_fold(old(hasher)@, character_bytes(self@)),
    {
        let mut bytes: Vec<u8> = Vec::new();
        self.encode_into(&mut bytes);
        assert(bytes@ =~= character_bytes(self@));
        hasher.update(bytes.as_slice());
    }
}

/// Strictly increasing ids hold no duplicate.
pub proof fn lemma_increasing_no_duplicate(ids: Seq<u64>)
    requires
        forall|i: int, j: int| 0 <= i < j < ids.len() ==> ids[i] < ids[j],
    ensures
        first_duplicate(ids) is None,
{
    assert forall|j: int| 0 <= j < ids.len() implies !#[trigger] duplicate_at(ids, j) by {
        if duplicate_at(ids, j) {
            let i = choose|i: int| 0 <= i < j && ids[i] == ids[j];
            assert(ids[i] < ids[j]);
        }
    }
}

} // verus!
