//! The anticipation-drive experiment: ranking already-legal intents before
//! an experimental plan seal.
//!
//! The experiment has no authority to change canonical commands,
//! receipts, values, or the oracle suite: it reads accepted gather
//! receipts as immutable commitments, ranks them by a bounded drive
//! modifier, emits an evaluation receipt, and seals the selected
//! commitment against that receipt's hash.

use vstd::prelude::*;

use crate::fnv::{be8, fnv_fold, fnv_hash, Fnv1a, FNV_OFFSET};
use crate::grammar::{ascii_bytes, push_ascii};
use crate::receipt::Receipt;
use crate::text::{dec_chars, hex_prefixed, push_decimal, push_hex, push_str};
use crate::vocab::{CharacterId, OutcomeKind, Verb};

verus! {

/// Bound on the score contribution of anticipation drive.
pub const DRIVE_MODIFIER_CAP: i8 = 1;

#[derive(Debug, Clone, Copy, PartialEq, Eq, Structural)]
pub enum Drive {
    Bad,
    Average,
    Good,
    Superb,
}

pub open spec fn drive_code(d: Drive) -> Seq<char> {
    match d {
        Drive::Bad => "bad"@,
        Drive::Average => "average"@,
        Drive::Good => "good"@,
        Drive::Superb => "superb"@,
    }
}

impl Drive {
    pub fn code(self) -> (r: &'static str)
        ensures
            r@ == drive_code(self),
    {
        match self {
            Drive::Bad => "bad",
            Drive::Average => "average",
            Drive::Good => "good",
            Drive::Superb => "superb",
        }
    }
}

#[derive(Debug, Clone, Copy, PartialEq, Eq, Structural)]
pub struct BeliefRecord {
    pub agent: CharacterId,
    pub drive: Drive,
}

impl BeliefRecord {
    pub fn new(agent: CharacterId, drive: Drive) -> (r: Self)
        ensures
            r == (BeliefRecord { agent, drive }),
    {
        BeliefRecord { agent, drive }
    }
}

/// The record held for `agent`, if any.
pub open spec fn belief_of(records: Seq<BeliefRecord>, agent: u64) -> Option<BeliefRecord> {
    if exists|i: int| 0 <= i < records.len() && (#[trigger] records[i]).agent.0 == agent {
        Some(records[choose|i: int| 0 <= i < records.len() && (#[trigger] records[i]).agent.0 == agent])
    } else {
        None
    }
}

/// No two records name the same agent.
pub open spec fn one_per_agent(records: Seq<BeliefRecord>) -> bool {
    forall|i: int, j: int|
        0 <= i < records.len() && 0 <= j < records.len() && i != j ==> (#[trigger] records[i]).agent
            != (#[trigger] records[j]).agent
}

/// The single-writer belief store. Evaluation receives shared access, so
/// it cannot mutate belief state while ranking or sealing a plan.
pub struct AnticipationBeliefs {
    records: Vec<BeliefRecord>,
}

impl AnticipationBeliefs {
    pub closed spec fn view(&self) -> Seq<BeliefRecord> {
        self.records@
    }

    /// One record per agent, or `None` when an agent occurs twice.
    pub fn seed<const N: usize>(records: [BeliefRecord; N]) -> (r: Option<Self>)
        ensures
            r is Some <==> one_per_agent(records@),
            r matches Some(b) ==> b@ == records@,
    {
        let mut i: usize = 0;
        while i < N
            invariant
                i <= N,
                one_per_agent(records@.take(i as int)),
            decreases N - i,
        {
            let mut j: usize = 0;
            while j < i
                invariant
                    j <= i < N,
                    forall|k: int| 0 <= k < j ==> records@[k].agent != records@[i as int].agent,
                decreases i - j,
            {
                if records[j].agent.0 == records[i].agent.0 {
                    proof {
                        assert(records@[j as int].agent == records@[i as int].agent);
                    }
                    return None;
                }
                j = j + 1;
            }
            proof {
                assert forall|a: int, b: int|
                    0 <= a < i + 1 && 0 <= b < i + 1 && a != b implies (#[trigger] records@.take(
                    i as int + 1,
                )[a]).agent != (#[trigger] records@.take(i as int + 1)[b]).agent by {
                    if a < i && b < i {
                        assert(records@.take(i as int)[a] == records@[a]);
                        assert(records@.take(i as int)[b] == records@[b]);
                    }
                }
            }
            i = i + 1;
        }
        proof {
            assert(records@.take(N as int) =~= records@);
        }
        let mut stored: Vec<BeliefRecord> = Vec::new();
        let mut i: usize = 0;
        while i < N
            invariant
                i <= N,
                stored@ == records@.take(i as int),
            decreases N - i,
        {
            stored.push(records[i]);
            proof {
                assert(stored@ =~= records@.take(i as int + 1));
            }
            i = i + 1;
        }
        proof {
            assert(records@.take(N as int) =~= records@);
        }
        Some(AnticipationBeliefs { records: stored })
    }

    pub fn record(&self, agent: CharacterId) -> (r: Option<BeliefRecord>)
        requires
            one_per_agent(self@),
        ensures
            r == belief_of(self@, agent.0),
    {
        let mut i: usize = 0;
        while i < self.records.len()
            invariant
                i <= self@.len(),
                one_per_agent(self@),
                forall|k: int| 0 <= k < i ==> (#[trigger] self@[k]).agent.0 != agent.0,
            decreases self@.len() - i,
        {
            if self.records[i].agent.0 == agent.0 {
                proof {
                    let c = choose|k: int| 0 <= k < self@.len() && (#[trigger] self@[k]).agent.0 == agent.0;
                    if c != i {
                        assert(self@[c].agent != self@[i as int].agent);
                    }
                }
                return Some(self.records[i]);
            }
            i = i + 1;
        }
        None
    }
}

#[derive(Debug, Clone, Copy, PartialEq, Eq, Structural)]
pub enum IntentKind {
    Cheap,
    Costly,
}

pub open spec fn intent_index(k: IntentKind) -> int {
    match k {
        IntentKind::Cheap => 0,
        IntentKind::Costly => 1,
    }
}

pub open spec fn intent_code(k: IntentKind) -> Seq<char> {
    match k {
        IntentKind::Cheap => "cheap"@,
        IntentKind::Costly => "costly"@,
    }
}

impl IntentKind {
    pub fn index(self) -> (r: usize)
        ensures
            r == intent_index(self),
    {
        match self {
            IntentKind::Cheap => 0,
            IntentKind::Costly => 1,
        }
    }

    pub fn code(self) -> (r: &'static str)
        ensures
            r@ == intent_code(self),
    {
        match self {
            IntentKind::Cheap => "cheap",
            IntentKind::Costly => "costly",
        }
    }
}

/// An immutable commitment copied from an already accepted canonical
/// gather receipt. Evaluation may rank these bytes but cannot rewrite them.
#[derive(Debug, Clone, Copy, PartialEq, Eq, Structural)]
pub struct ValidatedIntent {
    pub committed_cost: u8,
    pub committed_yield: u64,
}

/// The commitment's nine bytes: the cost, then the yield big-endian.
pub open spec fn commitment_bytes(v: ValidatedIntent) -> Seq<u8> {
    seq![v.committed_cost] + be8(v.committed_yield)
}

impl ValidatedIntent {
    /// The commitment of a gather that was accepted or partially
    /// accepted; `None` for every other receipt.
    pub fn from_receipt(receipt: &Receipt) -> (r: Option<Self>)
        ensures
            r is Some <==> (receipt.verb == Verb::Gather && !(receipt.outcome is Refused)),
            r matches Some(v) ==> v.committed_cost == receipt.stamina_spent && v.committed_yield
                == receipt.mass_moved@,
    {
        let legal = match receipt.verb {
            Verb::Gather => match receipt.outcome {
                OutcomeKind::Refused(_) => false,
                _ => true,
            },
            _ => false,
        };
        if legal {
            Some(ValidatedIntent {
                committed_cost: receipt.stamina_spent,
                committed_yield: receipt.mass_moved.grams(),
            })
        } else {
            None
        }
    }

    pub fn committed_bytes(self) -> (r: [u8; 9])
        ensures
            r@ == commitment_bytes(self),
    {
        let y = self.committed_yield;
        let r = [
            self.committed_cost,
            ((y >> 56u64) & 0xffu64) as u8,
            ((y >> 48u64) & 0xffu64) as u8,
            ((y >> 40u64) & 0xffu64) as u8,
            ((y >> 32u64) & 0xffu64) as u8,
            ((y >> 24u64) & 0xffu64) as u8,
            ((y >> 16u64) & 0xffu64) as u8,
            ((y >> 8u64) & 0xffu64) as u8,
            (y & 0xffu64) as u8,
        ];
        assert(r@ =~= commitment_bytes(self));
        r
    }
}

/// The semantic roles of two commitments: one cheaper and lower-yield, one
/// costlier and higher-yield, in that order. Ties and crossed trade-offs
/// have no roles.
pub open spec fn semantic_spec(left: ValidatedIntent, right: ValidatedIntent) -> Option<(ValidatedIntent, ValidatedIntent)> {
    if left.committed_cost < right.committed_cost && left.committed_yield < right.committed_yield {
        Some((left, right))
    } else if left.committed_cost > right.committed_cost && left.committed_yield > right.committed_yield {
        Some((right, left))
    } else {
        None
    }
}

/// Derive semantic roles from the commitments rather than caller labels;
/// ties and crossed trade-offs fail closed.
pub fn semantic_intents(intents: &[ValidatedIntent; 2]) -> (r: Option<[ValidatedIntent; 2]>)
    ensures
        r is Some <==> semantic_spec(intents@[0], intents@[1]) is Some,
        r matches Some(p) ==> semantic_spec(intents@[0], intents@[1]) == Some((p@[0], p@[1])),
{
    let left = intents[0];
    let right = intents[1];
    if left.committed_cost < right.committed_cost && left.committed_yield < right.committed_yield {
        Some([left, right])
    } else if left.committed_cost > right.committed_cost && left.committed_yield > right.committed_yield {
        Some([right, left])
    } else {
        None
    }
}

/// Byte-wise lexicographic order on equal-length byte strings.
pub open spec fn lex_less(a: Seq<u8>, b: Seq<u8>) -> bool {
    exists|i: int| 0 <= i < a.len() && i < b.len() && a.take(i) == b.take(i) && #[trigger] a[i] < b[i]
}

fn bytes_less(a: &[u8; 9], b: &[u8; 9]) -> (r: bool)
    ensures
        r == lex_less(a@, b@),
{
    let mut i: usize = 0;
    while i < 9
        invariant
            i <= 9,
            a@.len() == 9 && b@.len() == 9,
            a@.take(i as int) == b@.take(i as int),
        decreases 9 - i,
    {
        if a[i] < b[i] {
            proof {
                assert(a@.take(i as int) == b@.take(i as int) && a@[i as int] < b@[i as int]);
            }
            return true;
        }
        if a[i] > b[i] {
            proof {
                assert forall|j: int| 0 <= j < 9 && a@.take(j) == b@.take(j) implies !(#[trigger] a@[j] < b@[j]) by {
                    if j < i {
                        assert(a@.take(i as int)[j] == a@[j]);
                        assert(b@.take(i as int)[j] == b@[j]);
                    } else if j > i {
                        assert(a@.take(j)[i as int] == a@[i as int]);
                        assert(b@.take(j)[i as int] == b@[i as int]);
                    }
                }
            }
            return false;
        }
        proof {
            assert(a@.take(i as int + 1) =~= a@.take(i as int).push(a@[i as int]));
            assert(b@.take(i as int + 1) =~= b@.take(i as int).push(b@[i as int]));
        }
        i = i + 1;
    }
    proof {
        assert forall|j: int| 0 <= j < 9 && a@.take(j) == b@.take(j) implies !(#[trigger] a@[j] < b@[j]) by {
            assert(a@.take(9)[j] == a@[j]);
            assert(b@.take(9)[j] == b@[j]);
        }
    }
    false
}

/// The identity of the legal set: FNV-1a over both commitments in byte
/// order, so it does not depend on the order they were given in.
pub open spec fn set_hash_spec(a: ValidatedIntent, b: ValidatedIntent) -> u64 {
    let x = commitment_bytes(a);
    let y = commitment_bytes(b);
    if lex_less(y, x) {
        fnv_hash(y + x)
    } else {
        fnv_hash(x + y)
    }
}

pub fn legal_intent_set_hash(intents: &[ValidatedIntent; 2]) -> (r: u64)
    ensures
        r == set_hash_spec(intents@[0], intents@[1]),
{
    let x = intents[0].committed_bytes();
    let y = intents[1].committed_bytes();
    let mut hasher = Fnv1a::start();
    if bytes_less(&y, &x) {
        hasher.update(&y);
        hasher.update(&x);
        proof {
            crate::fnv::lemma_fnv_fold_concat(FNV_OFFSET, y@, x@);
        }
    } else {
        hasher.update(&x);
        hasher.update(&y);
        proof {
            crate::fnv::lemma_fnv_fold_concat(FNV_OFFSET, x@, y@);
        }
    }
    hasher.finish()
}

/// A raw modifier within the declared cap, or `None` — never clamped.
pub fn bounded_modifier(raw: i8) -> (r: Option<i8>)
    ensures
        r == (if -DRIVE_MODIFIER_CAP <= raw <= DRIVE_MODIFIER_CAP {
            Some(raw)
        } else {
            None::<i8>
        }),
{
    if -DRIVE_MODIFIER_CAP <= raw && raw <= DRIVE_MODIFIER_CAP {
        Some(raw)
    } else {
        None
    }
}

/// The raw score contribution of a drive: the cheap intent is the zero
/// reference; a costly intent scores -1 for a bad drive, 0 for an average
/// one, and +1 for a good or superb one.
pub open spec fn raw_modifier(drive: Drive, kind: IntentKind) -> i8 {
    match kind {
        IntentKind::Cheap => 0i8,
        IntentKind::Costly => match drive {
            Drive::Bad => -1i8,
            Drive::Average => 0i8,
            Drive::Good => 1i8,
            Drive::Superb => 1i8,
        },
    }
}

/// Pure score contribution from one belief record, rejected when outside
/// the cap.
pub fn drive_modifier(record: BeliefRecord, kind: IntentKind) -> (r: Option<i8>)
    ensures
        r == Some(raw_modifier(record.drive, kind)),
{
    let raw: i8 = match kind {
        IntentKind::Cheap => 0,
        IntentKind::Costly => match record.drive {
            Drive::Bad => -1,
            Drive::Average => 0,
            Drive::Good => 1,
            Drive::Superb => 1,
        },
    };
    bounded_modifier(raw)
}

#[derive(Debug, Clone, PartialEq, Eq)]
pub struct EvaluationReceipt {
    pub agent: CharacterId,
    pub drive: Drive,
    pub legal_intent_set_hash: u64,
    pub modifiers: [i8; 2],
    pub selected: IntentKind,
}

/// Decimal spelling of a signed modifier.
pub open spec fn i8_chars(x: i8) -> Seq<char> {
    if x < 0 {
        seq!['-'] + dec_chars((0 - x) as nat)
    } else {
        dec_chars(x as nat)
    }
}

/// The evaluation receipt's canonical line.
pub open spec fn evaluation_line(r: EvaluationReceipt) -> Seq<char> {
    "agent=C"@ + dec_chars(r.agent.0 as nat) + " drive="@ + drive_code(r.drive) + " legal_intents="@
        + hex_prefixed(r.legal_intent_set_hash) + " cheap_modifier="@ + i8_chars(r.modifiers@[0])
        + " costly_modifier="@ + i8_chars(r.modifiers@[1]) + " selected="@ + intent_code(r.selected)
        + " cap=1"@
}

fn push_i8(s: &mut String, x: i8)
    ensures
        final(s)@ == old(s)@ + i8_chars(x),
{
    if x < 0 {
        push_str(s, "-");
        let magnitude: u64 = (0 - (x as i16)) as u64;
        assert(magnitude == 0 - x);
        push_decimal(s, magnitude);
        proof {
            reveal_strlit("-");
            assert(s@ =~= old(s)@ + i8_chars(x));
        }
    } else {
        push_decimal(s, x as u64);
    }
}

impl EvaluationReceipt {
    pub fn canonical_line(&self) -> (r: String)
        ensures
            r@ == evaluation_line(*self),
    {
        let mut s = String::new();
        push_str(&mut s, "agent=C");
        push_decimal(&mut s, self.agent.0);
        push_str(&mut s, " drive=");
        push_str(&mut s, self.drive.code());
        push_str(&mut s, " legal_intents=");
        push_hex(&mut s, self.legal_intent_set_hash);
        push_str(&mut s, " cheap_modifier=");
        push_i8(&mut s, self.modifiers[0]);
        push_str(&mut s, " costly_modifier=");
        push_i8(&mut s, self.modifiers[1]);
        push_str(&mut s, " selected=");
        push_str(&mut s, self.selected.code());
        push_str(&mut s, " cap=");
        push_decimal(&mut s, DRIVE_MODIFIER_CAP as u64);
        proof {
            reveal_strlit(" cap=");
            reveal_strlit(" cap=1");
            assert(dec_chars(1) == seq!['1']);
            assert(s@ =~= evaluation_line(*self));
        }
        s
    }

    pub fn hash(&self) -> (r: u64)
        ensures
            r == fnv_hash(ascii_bytes(evaluation_line(*self))),
    {
        let line = self.canonical_line();
        let mut bytes: Vec<u8> = Vec::new();
        push_ascii(&mut bytes, line.as_str());
        let mut hasher = Fnv1a::start();
        hasher.update(bytes.as_slice());
        proof {
            assert(bytes@ =~= ascii_bytes(evaluation_line(*self)));
        }
        hasher.finish()
    }
}

#[derive(Debug, Clone, PartialEq, Eq)]
pub struct SealedPlan {
    pub committed_intent: [u8; 9],
    pub evaluation_receipt_hash: u64,
}

#[derive(Debug, Clone, PartialEq, Eq)]
pub struct EvaluatedPlan {
    pub receipt: EvaluationReceipt,
    pub plan: SealedPlan,
}

/// Rank immutable legal intents, emit the evaluation receipt, then seal
/// the selected commitment against that receipt. A pure function of the
/// belief records plus the already-frozen legal set: the costly intent is
/// selected exactly when its modifier beats the cheap one's, and a tie
/// resolves to the cheap intent, independent of input order.
pub fn evaluate_and_seal(beliefs: &AnticipationBeliefs, agent: CharacterId, intents: &[ValidatedIntent; 2]) -> (r:
    Option<EvaluatedPlan>)
    requires
        one_per_agent(beliefs@),
    ensures
        r is Some <==> (belief_of(beliefs@, agent.0) is Some && semantic_spec(intents@[0], intents@[1]) is Some),
        r matches Some(p) ==> {
            let belief = belief_of(beliefs@, agent.0).unwrap();
            let roles = semantic_spec(intents@[0], intents@[1]).unwrap();
            let costly_wins = raw_modifier(belief.drive, IntentKind::Costly) > 0;
            &&& p.receipt.agent == agent
            &&& p.receipt.drive == belief.drive
            &&& p.receipt.legal_intent_set_hash == set_hash_spec(intents@[0], intents@[1])
            &&& p.receipt.modifiers@ == seq![0i8, raw_modifier(belief.drive, IntentKind::Costly)]
            &&& p.receipt.selected == (if costly_wins {
                IntentKind::Costly
            } else {
                IntentKind::Cheap
            })
            &&& p.plan.committed_intent@ == commitment_bytes(
                if costly_wins {
                    roles.1
                } else {
                    roles.0
                },
            )
            &&& p.plan.evaluation_receipt_hash == fnv_hash(ascii_bytes(evaluation_line(p.receipt)))
        },
{
    let belief = match beliefs.record(agent) {
        Some(b) => b,
        None => return None,
    };
    let roles = match semantic_intents(intents) {
        Some(p) => p,
        None => return None,
    };
    let cheap = roles[0];
    let costly = roles[1];
    let cheap_modifier = match drive_modifier(belief, IntentKind::Cheap) {
        Some(m) => m,
        None => return None,
    };
    let costly_modifier = match drive_modifier(belief, IntentKind::Costly) {
        Some(m) => m,
        None => return None,
    };
    let modifiers = [cheap_modifier, costly_modifier];
    // A tie resolves to the semantic cheap intent, independent of input
    // order.
    let selected_kind = if modifiers[IntentKind::Costly.index()] > modifiers[IntentKind::Cheap.index()] {
        IntentKind::Costly
    } else {
        IntentKind::Cheap
    };
    let selected = match selected_kind {
        IntentKind::Cheap => cheap,
        IntentKind::Costly => costly,
    };
    let receipt = EvaluationReceipt {
        agent,
        drive: belief.drive,
        legal_intent_set_hash: legal_intent_set_hash(intents),
        modifiers,
        selected: selected_kind,
    };
    // The receipt must exist before the plan can bind to its hash.
    let evaluation_receipt_hash = receipt.hash();
    let plan = SealedPlan { committed_intent: selected.committed_bytes(), evaluation_receipt_hash };
    proof {
        assert(modifiers@ =~= seq![0i8, raw_modifier(belief.drive, IntentKind::Costly)]);
    }
    Some(EvaluatedPlan { receipt, plan })
}

/// Of two different byte strings of one length, one is below the other.
proof fn lemma_lex_total(a: Seq<u8>, b: Seq<u8>)
    requires
        a.len() == b.len(),
        a != b,
    ensures
        lex_less(a, b) || lex_less(b, a),
    decreases a.len(),
{
    if a.len() == 0 {
        assert(a =~= b);
    } else if a[0] != b[0] {
        assert(a.take(0) =~= b.take(0));
        if a[0] < b[0] {
            assert(lex_less(a, b));
        } else {
            assert(lex_less(b, a));
        }
    } else {
        let a1 = a.skip(1);
        let b1 = b.skip(1);
        if a1 == b1 {
            assert(a =~= seq![a[0]] + a1);
            assert(b =~= seq![b[0]] + b1);
        } else {
            lemma_lex_total(a1, b1);
            if lex_less(a1, b1) {
                let i = choose|i: int| 0 <= i < a1.len() && i < b1.len() && a1.take(i) == b1.take(i) && #[trigger] a1[i] < b1[i];
                assert forall|j: int| 0 <= j < i + 1 implies #[trigger] a.take(i + 1)[j] == b.take(i + 1)[j] by {
                    if j > 0 {
                        assert(a1.take(i)[j - 1] == b1.take(i)[j - 1]);
                    }
                }
                assert(a.take(i + 1) =~= b.take(i + 1));
                assert(a[i + 1] == a1[i]);
                assert(lex_less(a, b));
            } else {
                let i = choose|i: int| 0 <= i < b1.len() && i < a1.len() && b1.take(i) == a1.take(i) && #[trigger] b1[i] < a1[i];
                assert forall|j: int| 0 <= j < i + 1 implies #[trigger] b.take(i + 1)[j] == a.take(i + 1)[j] by {
                    if j > 0 {
                        assert(b1.take(i)[j - 1] == a1.take(i)[j - 1]);
                    }
                }
                assert(b.take(i + 1) =~= a.take(i + 1));
                assert(b[i + 1] == b1[i]);
                assert(lex_less(b, a));
            }
        }
    }
}

/// Of two byte strings of one length, at most one is below the other, and
/// when neither is they are the same string.
proof fn lemma_lex_trichotomy(a: Seq<u8>, b: Seq<u8>)
    requires
        a.len() == b.len(),
    ensures
        !(lex_less(a, b) && lex_less(b, a)),
        !lex_less(a, b) && !lex_less(b, a) ==> a == b,
{
    if lex_less(a, b) && lex_less(b, a) {
        let i = choose|i: int| 0 <= i < a.len() && i < b.len() && a.take(i) == b.take(i) && #[trigger] a[i] < b[i];
        let j = choose|j: int| 0 <= j < b.len() && j < a.len() && b.take(j) == a.take(j) && #[trigger] b[j] < a[j];
        if i < j {
            assert(a.take(j)[i] == b.take(j)[i]);
        } else if j < i {
            assert(a.take(i)[j] == b.take(i)[j]);
        }
    }
    if a != b {
        lemma_lex_total(a, b);
    }
}

/// The identity of the legal set does not depend on the order its two
/// commitments are given in.
pub proof fn law_set_identity_ignores_order(a: ValidatedIntent, b: ValidatedIntent)
    ensures
        set_hash_spec(a, b) == set_hash_spec(b, a),
{
    lemma_lex_trichotomy(commitment_bytes(a), commitment_bytes(b));
}

/// The legal-intent identity covers both intents: it is FNV-1a over the
/// 18 bytes of both 9-byte commitments, one after the other, the
/// byte-wise lesser first.
pub proof fn law_set_hash_covers_both_commitments(a: ValidatedIntent, b: ValidatedIntent)
    ensures
        commitment_bytes(a).len() == 9,
        commitment_bytes(b).len() == 9,
        set_hash_spec(a, b) == fnv_hash(commitment_bytes(a) + commitment_bytes(b)) || set_hash_spec(a, b)
            == fnv_hash(commitment_bytes(b) + commitment_bytes(a)),
        !lex_less(commitment_bytes(b), commitment_bytes(a)) ==> set_hash_spec(a, b) == fnv_hash(
            commitment_bytes(a) + commitment_bytes(b),
        ),
        lex_less(commitment_bytes(b), commitment_bytes(a)) ==> set_hash_spec(a, b) == fnv_hash(
            commitment_bytes(b) + commitment_bytes(a),
        ),
{
}

/// The semantic roles do not depend on input order, and they are always
/// the two given commitments: evaluation ranks the legal set but never
/// changes its membership.
pub proof fn law_roles_ignore_order(a: ValidatedIntent, b: ValidatedIntent)
    ensures
        semantic_spec(a, b) == semantic_spec(b, a),
        semantic_spec(a, b) matches Some(r) ==> (r == (a, b) || r == (b, a)),
{
}

/// A drive's score contribution always lies within the declared cap.
pub proof fn law_modifier_within_cap(drive: Drive, kind: IntentKind)
    ensures
        -DRIVE_MODIFIER_CAP <= raw_modifier(drive, kind) <= DRIVE_MODIFIER_CAP,
{
}

} // verus!
