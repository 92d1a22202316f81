//! Shared primitive vocabulary: typed IDs, bounded quantities, the two
//! axes of the active design cell, the closed resource kinds, the closed
//! outcome and reason codes, and the verbs.

use vstd::prelude::*;

use crate::text::str_equals;

verus! {

// ---------------------------------------------------------------------------
// Typed IDs
// ---------------------------------------------------------------------------

#[derive(Debug, Clone, Copy, PartialEq, Eq, Structural, PartialOrd, Ord, Hash)]
pub struct CharacterId(pub u64);

#[derive(Debug, Clone, Copy, PartialEq, Eq, Structural, PartialOrd, Ord, Hash)]
pub struct SiteId(pub u64);

#[derive(Debug, Clone, Copy, PartialEq, Eq, Structural, PartialOrd, Ord, Hash)]
pub struct ClaimId(pub u64);

// ---------------------------------------------------------------------------
// Bounded quantities
// ---------------------------------------------------------------------------

/// Stamina points, bounded to `0..=MAX`. Constructed only through `new`
/// (or an exact spend of an existing value), so an out-of-range value is
/// unrepresentable.
#[derive(Debug, Clone, Copy, PartialEq, Eq, Structural, PartialOrd, Ord)]
pub struct Stamina(u8);

/// Upper bound of stamina points.
pub const STAMINA_MAX: u8 = 100;

/// The band a stamina value falls in.
pub open spec fn band_of(points: int) -> StaminaBand {
    if points <= 9 {
        StaminaBand::Exhausted
    } else if points <= 39 {
        StaminaBand::Low
    } else if points <= 79 {
        StaminaBand::Steady
    } else {
        StaminaBand::Fresh
    }
}

impl Stamina {
    pub const MAX: u8 = 100;

    #[verifier::type_invariant]
    spec fn in_bounds(self) -> bool {
        self.0 <= 100
    }

    pub closed spec fn view(self) -> u8 {
        self.0
    }

    pub fn new(points: u8) -> (r: Option<Self>)
        ensures
            r is Some <==> points <= 100,
            r matches Some(s) ==> s@ == points,
    {
        if points <= 100 {
            Some(Stamina(points))
        } else {
            None
        }
    }

    pub fn points(self) -> (r: u8)
        ensures
            r == self@,
            r <= 100,
    {
        proof {
            use_type_invariant(&self);
        }
        self.0
    }

    /// Exact spend: `None` when the cost exceeds the points. There is no
    /// clamping path — an overdraw is refused, never hidden.
    pub fn spend_exact(self, cost: u8) -> (r: Option<Self>)
        ensures
            r is Some <==> cost <= self@,
            r matches Some(s) ==> s@ == self@ - cost,
    {
        proof {
            use_type_invariant(&self);
        }
        if cost <= self.0 {
            Some(Stamina(self.0 - cost))
        } else {
            None
        }
    }

    pub fn band(self) -> (r: StaminaBand)
        ensures
            r == band_of(self@ as int),
    {
        if self.0 <= 9 {
            StaminaBand::Exhausted
        } else if self.0 <= 39 {
            StaminaBand::Low
        } else if self.0 <= 79 {
            StaminaBand::Steady
        } else {
            StaminaBand::Fresh
        }
    }
}

/// The stamina value with the given points (for specifications).
pub closed spec fn stamina_from(points: u8) -> Stamina {
    Stamina(points)
}

pub proof fn lemma_stamina_from(points: u8)
    ensures
        stamina_from(points)@ == points,
{
}

/// Two stamina values with the same points are the same value.
pub proof fn lemma_stamina_eq(a: Stamina, b: Stamina)
    requires
        a@ == b@,
    ensures
        a == b,
{
}

/// Mass in whole grams. Backed by `u64`, so negative mass is
/// unrepresentable by construction.
#[derive(Debug, Clone, Copy, PartialEq, Eq, Structural, PartialOrd, Ord)]
pub struct MassGrams(u64);

impl MassGrams {
    pub closed spec fn view(self) -> u64 {
        self.0
    }

    pub fn zero() -> (r: Self)
        ensures
            r@ == 0,
    {
        MassGrams(0)
    }

    pub fn new(grams: u64) -> (r: Self)
        ensures
            r@ == grams,
    {
        MassGrams(grams)
    }

    pub fn grams(self) -> (r: u64)
        ensures
            r == self@,
    {
        self.0
    }

    pub fn is_zero(self) -> (r: bool)
        ensures
            r == (self@ == 0),
    {
        self.0 == 0
    }

    /// `None` instead of silently clamping an unrepresentable sum.
    pub fn checked_add(self, other: Self) -> (r: Option<Self>)
        ensures
            r is Some <==> self@ + other@ <= u64::MAX,
            r matches Some(m) ==> m@ == self@ + other@,
    {
        match self.0.checked_add(other.0) {
            Some(v) => Some(MassGrams(v)),
            None => None,
        }
    }

    /// `None` instead of ever producing a below-zero mass.
    pub fn checked_sub(self, other: Self) -> (r: Option<Self>)
        ensures
            r is Some <==> other@ <= self@,
            r matches Some(m) ==> m@ == self@ - other@,
    {
        match self.0.checked_sub(other.0) {
            Some(v) => Some(MassGrams(v)),
            None => None,
        }
    }
}

/// The mass value with the given grams (for specifications).
pub closed spec fn mass_from(grams: u64) -> MassGrams {
    MassGrams(grams)
}

pub proof fn lemma_mass_from(grams: u64)
    ensures
        mass_from(grams)@ == grams,
{
}

/// Two masses with the same grams are the same value.
pub proof fn lemma_mass_eq(a: MassGrams, b: MassGrams)
    requires
        a@ == b@,
    ensures
        a == b,
{
}

// ---------------------------------------------------------------------------
// The two axes of the active cell: stamina band x infrastructure tier
// ---------------------------------------------------------------------------

#[derive(Debug, Clone, Copy, PartialEq, Eq, Structural)]
pub enum StaminaBand {
    Exhausted,
    Low,
    Steady,
    Fresh,
}

pub open spec fn band_index(b: StaminaBand) -> int {
    match b {
        StaminaBand::Exhausted => 0,
        StaminaBand::Low => 1,
        StaminaBand::Steady => 2,
        StaminaBand::Fresh => 3,
    }
}

pub open spec fn band_code(b: StaminaBand) -> Seq<char> {
    match b {
        StaminaBand::Exhausted => "exhausted"@,
        StaminaBand::Low => "low"@,
        StaminaBand::Steady => "steady"@,
        StaminaBand::Fresh => "fresh"@,
    }
}

impl StaminaBand {
    pub fn index(self) -> (r: usize)
        ensures
            r == band_index(self),
    {
        match self {
            StaminaBand::Exhausted => 0,
            StaminaBand::Low => 1,
            StaminaBand::Steady => 2,
            StaminaBand::Fresh => 3,
        }
    }

    pub fn code(self) -> (r: &'static str)
        ensures
            r@ == band_code(self),
    {
        match self {
            StaminaBand::Exhausted => "exhausted",
            StaminaBand::Low => "low",
            StaminaBand::Steady => "steady",
            StaminaBand::Fresh => "fresh",
        }
    }
}

#[derive(Debug, Clone, Copy, PartialEq, Eq, Structural)]
pub enum InfraTier {
    NoInfrastructure,
    Crude,
    Established,
    Advanced,
}

pub open spec fn tier_index(t: InfraTier) -> int {
    match t {
        InfraTier::NoInfrastructure => 0,
        InfraTier::Crude => 1,
        InfraTier::Established => 2,
        InfraTier::Advanced => 3,
    }
}

pub open spec fn tier_code(t: InfraTier) -> Seq<char> {
    match t {
        InfraTier::NoInfrastructure => "none"@,
        InfraTier::Crude => "crude"@,
        InfraTier::Established => "established"@,
        InfraTier::Advanced => "advanced"@,
    }
}

impl InfraTier {
    pub fn index(self) -> (r: usize)
        ensures
            r == tier_index(self),
    {
        match self {
            InfraTier::NoInfrastructure => 0,
            InfraTier::Crude => 1,
            InfraTier::Established => 2,
            InfraTier::Advanced => 3,
        }
    }

    pub fn code(self) -> (r: &'static str)
        ensures
            r@ == tier_code(self),
    {
        match self {
            InfraTier::NoInfrastructure => "none",
            InfraTier::Crude => "crude",
            InfraTier::Established => "established",
            InfraTier::Advanced => "advanced",
        }
    }
}

/// The closed resource-kind vocabulary: three kinds, no catch-all.
#[derive(Debug, Clone, Copy, PartialEq, Eq, Structural, PartialOrd, Ord, Hash)]
pub enum ResourceKind {
    Fodder,
    Food,
    Timber,
}

pub const KIND_COUNT: usize = 3;

pub open spec fn kind_index(k: ResourceKind) -> int {
    match k {
        ResourceKind::Fodder => 0,
        ResourceKind::Food => 1,
        ResourceKind::Timber => 2,
    }
}

pub open spec fn kind_code(k: ResourceKind) -> Seq<char> {
    match k {
        ResourceKind::Fodder => "fodder"@,
        ResourceKind::Food => "food"@,
        ResourceKind::Timber => "timber"@,
    }
}

/// The kind with a given index (`kind_index` inverted).
pub open spec fn kind_at(i: int) -> ResourceKind {
    if i == 0 {
        ResourceKind::Fodder
    } else if i == 1 {
        ResourceKind::Food
    } else {
        ResourceKind::Timber
    }
}

impl ResourceKind {
    pub const ALL: [ResourceKind; 3] = [ResourceKind::Fodder, ResourceKind::Food, ResourceKind::Timber];

    /// Every kind, in index order.
    pub fn all() -> (r: [ResourceKind; 3])
        ensures
            forall|i: int| 0 <= i < 3 ==> #[trigger] r@[i] == kind_at(i),
    {
        [ResourceKind::Fodder, ResourceKind::Food, ResourceKind::Timber]
    }

    pub fn index(self) -> (r: usize)
        ensures
            r == kind_index(self),
    {
        match self {
            ResourceKind::Fodder => 0,
            ResourceKind::Food => 1,
            ResourceKind::Timber => 2,
        }
    }

    pub fn code(self) -> (r: &'static str)
        ensures
            r@ == kind_code(self),
    {
        match self {
            ResourceKind::Fodder => "fodder",
            ResourceKind::Food => "food",
            ResourceKind::Timber => "timber",
        }
    }

    /// The kind whose code is exactly `code`, if any.
    pub fn from_code(code: &str) -> (r: Option<Self>)
        ensures
            r matches Some(k) ==> kind_code(k) == code@,
            r is None ==> forall|k: ResourceKind| kind_code(k) != code@,
            forall|k: ResourceKind| kind_code(k) == code@ ==> r == Some(k),
    {
        proof {
            reveal_strlit("fodder");
            reveal_strlit("food");
            reveal_strlit("timber");
            assert(kind_code(ResourceKind::Fodder).len() != kind_code(ResourceKind::Food).len());
            assert(kind_code(ResourceKind::Fodder)[0] != kind_code(ResourceKind::Timber)[0]);
            assert(kind_code(ResourceKind::Food).len() != kind_code(ResourceKind::Timber).len());
        }
        if str_equals(ResourceKind::Fodder.code(), code) {
            Some(ResourceKind::Fodder)
        } else if str_equals(ResourceKind::Food.code(), code) {
            Some(ResourceKind::Food)
        } else if str_equals(ResourceKind::Timber.code(), code) {
            Some(ResourceKind::Timber)
        } else {
            proof {
                assert forall|k: ResourceKind| kind_code(k) != code@ by {
                    match k {
                        ResourceKind::Fodder => {},
                        ResourceKind::Food => {},
                        ResourceKind::Timber => {},
                    }
                }
            }
            None
        }
    }
}

// ---------------------------------------------------------------------------
// Closed outcome and reason vocabulary
// ---------------------------------------------------------------------------

#[derive(Debug, Clone, Copy, PartialEq, Eq, Structural)]
pub enum RefusalReason {
    UnknownActor,
    UnknownSite,
    UnknownClaim,
    ClaimNotHeldByActor,
    ClaimSiteMismatch,
    ClaimNotWitnessed,
    ActorExhausted,
    InsufficientStamina,
    SiteEmpty,
    ClaimAlreadyWitnessed,
    CannotWitnessOwnClaim,
    UnknownRecipient,
    CannotGiveToSelf,
    InsufficientHolding,
    EmptyTransfer,
    UnknownWitness,
    WitnessIsParty,
}

pub open spec fn refusal_code(r: RefusalReason) -> Seq<char> {
    match r {
        RefusalReason::UnknownActor => "unknown_actor"@,
        RefusalReason::UnknownSite => "unknown_site"@,
        RefusalReason::UnknownClaim => "unknown_claim"@,
        RefusalReason::ClaimNotHeldByActor => "claim_not_held_by_actor"@,
        RefusalReason::ClaimSiteMismatch => "claim_site_mismatch"@,
        RefusalReason::ClaimNotWitnessed => "claim_not_witnessed"@,
        RefusalReason::ActorExhausted => "actor_exhausted"@,
        RefusalReason::InsufficientStamina => "insufficient_stamina"@,
        RefusalReason::SiteEmpty => "site_empty"@,
        RefusalReason::ClaimAlreadyWitnessed => "claim_already_witnessed"@,
        RefusalReason::CannotWitnessOwnClaim => "cannot_witness_own_claim"@,
        RefusalReason::UnknownRecipient => "unknown_recipient"@,
        RefusalReason::CannotGiveToSelf => "cannot_give_to_self"@,
        RefusalReason::InsufficientHolding => "insufficient_holding"@,
        RefusalReason::EmptyTransfer => "empty_transfer"@,
        RefusalReason::UnknownWitness => "unknown_witness"@,
        RefusalReason::WitnessIsParty => "witness_is_party"@,
    }
}

/// Length and four sample characters of a code: enough to tell every
/// refusal code apart.
pub open spec fn code_signature(s: Seq<char>) -> (int, char, char, char, char) {
    (s.len() as int, s[0], s[6], s[8], s[13])
}

/// No two refusal reasons share a code.
pub proof fn lemma_refusal_code_injective(a: RefusalReason, b: RefusalReason)
    requires
        refusal_code(a) == refusal_code(b),
    ensures
        a == b,
{
    reveal_strlit("unknown_actor");
    reveal_strlit("unknown_site");
    reveal_strlit("unknown_claim");
    reveal_strlit("claim_not_held_by_actor");
    reveal_strlit("claim_site_mismatch");
    reveal_strlit("claim_not_witnessed");
    reveal_strlit("actor_exhausted");
    reveal_strlit("insufficient_stamina");
    reveal_strlit("site_empty");
    reveal_strlit("claim_already_witnessed");
    reveal_strlit("cannot_witness_own_claim");
    reveal_strlit("unknown_recipient");
    reveal_strlit("cannot_give_to_self");
    reveal_strlit("insufficient_holding");
    reveal_strlit("empty_transfer");
    reveal_strlit("unknown_witness");
    reveal_strlit("witness_is_party");
    assert(code_signature(refusal_code(a)) == code_signature(refusal_code(b)));
}

/// The refusal reasons in their declared order.
pub open spec fn refusal_at(i: int) -> RefusalReason {
    if i == 0 {
        RefusalReason::UnknownActor
    } else if i == 1 {
        RefusalReason::UnknownSite
    } else if i == 2 {
        RefusalReason::UnknownClaim
    } else if i == 3 {
        RefusalReason::ClaimNotHeldByActor
    } else if i == 4 {
        RefusalReason::ClaimSiteMismatch
    } else if i == 5 {
        RefusalReason::ClaimNotWitnessed
    } else if i == 6 {
        RefusalReason::ActorExhausted
    } else if i == 7 {
        RefusalReason::InsufficientStamina
    } else if i == 8 {
        RefusalReason::SiteEmpty
    } else if i == 9 {
        RefusalReason::ClaimAlreadyWitnessed
    } else if i == 10 {
        RefusalReason::CannotWitnessOwnClaim
    } else if i == 11 {
        RefusalReason::UnknownRecipient
    } else if i == 12 {
        RefusalReason::CannotGiveToSelf
    } else if i == 13 {
        RefusalReason::InsufficientHolding
    } else if i == 14 {
        RefusalReason::EmptyTransfer
    } else if i == 15 {
        RefusalReason::UnknownWitness
    } else {
        RefusalReason::WitnessIsParty
    }
}

pub const REFUSAL_COUNT: usize = 17;

impl RefusalReason {
    /// Every refusal reason, in declared order.
    /// Every refusal reason, in declared order.
    pub const ALL: [RefusalReason; 17] = [
        RefusalReason::UnknownActor,
        RefusalReason::UnknownSite,
        RefusalReason::UnknownClaim,
        RefusalReason::ClaimNotHeldByActor,
        RefusalReason::ClaimSiteMismatch,
        RefusalReason::ClaimNotWitnessed,
        RefusalReason::ActorExhausted,
        RefusalReason::InsufficientStamina,
        RefusalReason::SiteEmpty,
        RefusalReason::ClaimAlreadyWitnessed,
        RefusalReason::CannotWitnessOwnClaim,
        RefusalReason::UnknownRecipient,
        RefusalReason::CannotGiveToSelf,
        RefusalReason::InsufficientHolding,
        RefusalReason::EmptyTransfer,
        RefusalReason::UnknownWitness,
        RefusalReason::WitnessIsParty,
    ];

    pub fn all() -> (r: [RefusalReason; 17])
        ensures
            forall|i: int| 0 <= i < 17 ==> #[trigger] r@[i] == refusal_at(i),
    {
        [
            RefusalReason::UnknownActor,
            RefusalReason::UnknownSite,
            RefusalReason::UnknownClaim,
            RefusalReason::ClaimNotHeldByActor,
            RefusalReason::ClaimSiteMismatch,
            RefusalReason::ClaimNotWitnessed,
            RefusalReason::ActorExhausted,
            RefusalReason::InsufficientStamina,
            RefusalReason::SiteEmpty,
            RefusalReason::ClaimAlreadyWitnessed,
            RefusalReason::CannotWitnessOwnClaim,
            RefusalReason::UnknownRecipient,
            RefusalReason::CannotGiveToSelf,
            RefusalReason::InsufficientHolding,
            RefusalReason::EmptyTransfer,
            RefusalReason::UnknownWitness,
            RefusalReason::WitnessIsParty,
        ]
    }

    pub fn code(self) -> (r: &'static str)
        ensures
            r@ == refusal_code(self),
    {
        match self {
            RefusalReason::UnknownActor => "unknown_actor",
            RefusalReason::UnknownSite => "unknown_site",
            RefusalReason::UnknownClaim => "unknown_claim",
            RefusalReason::ClaimNotHeldByActor => "claim_not_held_by_actor",
            RefusalReason::ClaimSiteMismatch => "claim_site_mismatch",
            RefusalReason::ClaimNotWitnessed => "claim_not_witnessed",
            RefusalReason::ActorExhausted => "actor_exhausted",
            RefusalReason::InsufficientStamina => "insufficient_stamina",
            RefusalReason::SiteEmpty => "site_empty",
            RefusalReason::ClaimAlreadyWitnessed => "claim_already_witnessed",
            RefusalReason::CannotWitnessOwnClaim => "cannot_witness_own_claim",
            RefusalReason::UnknownRecipient => "unknown_recipient",
            RefusalReason::CannotGiveToSelf => "cannot_give_to_self",
            RefusalReason::InsufficientHolding => "insufficient_holding",
            RefusalReason::EmptyTransfer => "empty_transfer",
            RefusalReason::UnknownWitness => "unknown_witness",
            RefusalReason::WitnessIsParty => "witness_is_party",
        }
    }

    /// The first reason, in declared order, whose code is exactly `code`.
    pub fn from_code(code: &str) -> (r: Option<Self>)
        ensures
            r matches Some(x) ==> refusal_code(x) == code@,
            r is None ==> forall|x: RefusalReason| refusal_code(x) != code@,
            forall|x: RefusalReason| refusal_code(x) == code@ ==> r == Some(x),
    {
        let all = RefusalReason::all();
        let mut i: usize = 0;
        while i < 17
            invariant
                i <= 17,
                forall|j: int| 0 <= j < 17 ==> all@[j] == refusal_at(j),
                forall|j: int| 0 <= j < i ==> refusal_code(refusal_at(j)) != code@,
            decreases 17 - i,
        {
            let candidate = all[i];
            if str_equals(candidate.code(), code) {
                proof {
                    assert forall|x: RefusalReason| refusal_code(x) == code@ implies Some(candidate)
                        == Some(x) by {
                        lemma_refusal_code_injective(candidate, x);
                    }
                }
                return Some(candidate);
            }
            i = i + 1;
        }
        proof {
            assert forall|x: RefusalReason| refusal_code(x) != code@ by {
                lemma_refusal_listed(x);
            }
        }
        None
    }
}

/// Every refusal reason occurs in the declared order at its own index.
pub proof fn lemma_refusal_listed(x: RefusalReason)
    ensures
        exists|i: int| 0 <= i < 17 && refusal_at(i) == x,
{
    match x {
        RefusalReason::UnknownActor => assert(refusal_at(0) == x),
        RefusalReason::UnknownSite => assert(refusal_at(1) == x),
        RefusalReason::UnknownClaim => assert(refusal_at(2) == x),
        RefusalReason::ClaimNotHeldByActor => assert(refusal_at(3) == x),
        RefusalReason::ClaimSiteMismatch => assert(refusal_at(4) == x),
        RefusalReason::ClaimNotWitnessed => assert(refusal_at(5) == x),
        RefusalReason::ActorExhausted => assert(refusal_at(6) == x),
        RefusalReason::InsufficientStamina => assert(refusal_at(7) == x),
        RefusalReason::SiteEmpty => assert(refusal_at(8) == x),
        RefusalReason::ClaimAlreadyWitnessed => assert(refusal_at(9) == x),
        RefusalReason::CannotWitnessOwnClaim => assert(refusal_at(10) == x),
        RefusalReason::UnknownRecipient => assert(refusal_at(11) == x),
        RefusalReason::CannotGiveToSelf => assert(refusal_at(12) == x),
        RefusalReason::InsufficientHolding => assert(refusal_at(13) == x),
        RefusalReason::EmptyTransfer => assert(refusal_at(14) == x),
        RefusalReason::UnknownWitness => assert(refusal_at(15) == x),
        RefusalReason::WitnessIsParty => assert(refusal_at(16) == x),
    }
}

#[derive(Debug, Clone, Copy, PartialEq, Eq, Structural)]
pub enum PartialReason {
    SiteNearlyDepleted,
}

pub open spec fn partial_code(r: PartialReason) -> Seq<char> {
    match r {
        PartialReason::SiteNearlyDepleted => "site_nearly_depleted"@,
    }
}

impl PartialReason {
    /// Every partial reason.
    pub const ALL: [PartialReason; 1] = [PartialReason::SiteNearlyDepleted];

    /// Every partial reason.
    pub fn all() -> (r: [PartialReason; 1])
        ensures
            r@[0] == PartialReason::SiteNearlyDepleted,
    {
        [PartialReason::SiteNearlyDepleted]
    }

    pub fn code(self) -> (r: &'static str)
        ensures
            r@ == partial_code(self),
    {
        match self {
            PartialReason::SiteNearlyDepleted => "site_nearly_depleted",
        }
    }

    pub fn from_code(code: &str) -> (r: Option<Self>)
        ensures
            r matches Some(x) ==> partial_code(x) == code@,
            r is None ==> forall|x: PartialReason| partial_code(x) != code@,
            forall|x: PartialReason| partial_code(x) == code@ ==> r == Some(x),
    {
        if str_equals(PartialReason::SiteNearlyDepleted.code(), code) {
            Some(PartialReason::SiteNearlyDepleted)
        } else {
            proof {
                assert forall|x: PartialReason| partial_code(x) != code@ by {
                    match x {
                        PartialReason::SiteNearlyDepleted => {},
                    }
                }
            }
            None
        }
    }
}

#[derive(Debug, Clone, Copy, PartialEq, Eq, Structural)]
pub enum OutcomeKind {
    Accepted,
    Partial(PartialReason),
    Refused(RefusalReason),
}

pub open spec fn outcome_code(o: OutcomeKind) -> Seq<char> {
    match o {
        OutcomeKind::Accepted => "accepted"@,
        OutcomeKind::Partial(_) => "partial"@,
        OutcomeKind::Refused(_) => "refused"@,
    }
}

pub open spec fn outcome_reason_code(o: OutcomeKind) -> Seq<char> {
    match o {
        OutcomeKind::Accepted => "-"@,
        OutcomeKind::Partial(r) => partial_code(r),
        OutcomeKind::Refused(r) => refusal_code(r),
    }
}

/// True when the outcome's reason code is one the closed enums produce
/// for that outcome.
pub open spec fn codes_round_trip_spec(o: OutcomeKind) -> bool {
    match o {
        OutcomeKind::Accepted => outcome_reason_code(o) == "-"@,
        OutcomeKind::Partial(_) => exists|x: PartialReason| partial_code(x) == outcome_reason_code(o),
        OutcomeKind::Refused(_) => exists|x: RefusalReason| refusal_code(x) == outcome_reason_code(o),
    }
}

impl OutcomeKind {
    pub fn code(self) -> (r: &'static str)
        ensures
            r@ == outcome_code(self),
    {
        match self {
            OutcomeKind::Accepted => "accepted",
            OutcomeKind::Partial(_) => "partial",
            OutcomeKind::Refused(_) => "refused",
        }
    }

    pub fn reason_code(self) -> (r: &'static str)
        ensures
            r@ == outcome_reason_code(self),
    {
        match self {
            OutcomeKind::Accepted => "-",
            OutcomeKind::Partial(reason) => reason.code(),
            OutcomeKind::Refused(reason) => reason.code(),
        }
    }

    /// True when the code pair round-trips through the closed enums.
    /// Every outcome the enums can build does.
    pub fn codes_round_trip(self) -> (r: bool)
        ensures
            r == codes_round_trip_spec(self),
            r,
    {
        match self {
            OutcomeKind::Accepted => str_equals(self.reason_code(), "-"),
            OutcomeKind::Partial(_) => PartialReason::from_code(self.reason_code()).is_some(),
            OutcomeKind::Refused(_) => RefusalReason::from_code(self.reason_code()).is_some(),
        }
    }

    pub fn yields_mass(self) -> (r: bool)
        ensures
            r == !(self is Refused),
    {
        match self {
            OutcomeKind::Refused(_) => false,
            _ => true,
        }
    }
}

/// Faults in seeded data, caught before any trial runs.
#[derive(Debug, Clone, Copy, PartialEq, Eq, Structural)]
pub enum FixtureFault {
    DuplicateCharacter(CharacterId),
    DuplicateSite(SiteId),
    DuplicateClaim(ClaimId),
    ClaimHolderUnknown(ClaimId),
    ClaimSiteUnknown(ClaimId),
    TotalMassOverflow,
}

/// The closed verb vocabulary. Every command is exactly one verb.
#[derive(Debug, Clone, Copy, PartialEq, Eq, Structural)]
pub enum Verb {
    Gather,
    Witness,
    Give,
}

pub open spec fn verb_code(v: Verb) -> Seq<char> {
    match v {
        Verb::Gather => "gather"@,
        Verb::Witness => "witness"@,
        Verb::Give => "give"@,
    }
}

impl Verb {
    pub fn code(self) -> (r: &'static str)
        ensures
            r@ == verb_code(self),
    {
        match self {
            Verb::Gather => "gather",
            Verb::Witness => "witness",
            Verb::Give => "give",
        }
    }
}

} // verus!
