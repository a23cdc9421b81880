//! Authoritative observations: their envelope, freshness and identity.
use vstd::prelude::*;

use crate::ids::{CapabilityId, ProviderId, ResourceId};
use crate::keyed::TextMap;
use crate::text::{
    append_decimal, append_str, byte_len, contains_control, decimal, has_control, is_blank,
    is_blank_seq, owned, utf8_len,
};

verus! {

#[derive(Clone, Copy, Debug, PartialEq, Eq)]
pub enum ObservationAuthority {
    NativeApi,
    Kernel,
    Filesystem,
    SyntheticTest,
}

/// The wire name of an authority.
pub open spec fn authority_name(a: ObservationAuthority) -> Seq<char> {
    match a {
        ObservationAuthority::NativeApi => "native-api"@,
        ObservationAuthority::Kernel => "kernel"@,
        ObservationAuthority::Filesystem => "filesystem"@,
        ObservationAuthority::SyntheticTest => "synthetic-test"@,
    }
}

impl ObservationAuthority {
    pub fn as_str(self) -> (r: &'static str)
        ensures
            r@ == authority_name(self),
    {
        match self {
            ObservationAuthority::NativeApi => "native-api",
            ObservationAuthority::Kernel => "kernel",
            ObservationAuthority::Filesystem => "filesystem",
            ObservationAuthority::SyntheticTest => "synthetic-test",
        }
    }
}

/// One observed attribute value.
#[derive(Debug, PartialEq, Eq)]
pub enum ObservedValue {
    Text(String),
    Bool(bool),
    U64(u64),
    I64(i64),
}

/// The texts of an observed value.
pub enum ValueModel {
    Text(Seq<char>),
    Bool(bool),
    U64(u64),
    I64(i64),
}

impl View for ObservedValue {
    type V = ValueModel;

    open spec fn view(&self) -> ValueModel {
        match self {
            ObservedValue::Text(s) => ValueModel::Text(s@),
            ObservedValue::Bool(b) => ValueModel::Bool(*b),
            ObservedValue::U64(n) => ValueModel::U64(*n),
            ObservedValue::I64(n) => ValueModel::I64(*n),
        }
    }
}

impl Clone for ObservedValue {
    fn clone(&self) -> (r: Self)
        ensures
            r@ == self@,
    {
        match self {
            ObservedValue::Text(s) => ObservedValue::Text(s.clone()),
            ObservedValue::Bool(b) => ObservedValue::Bool(*b),
            ObservedValue::U64(n) => ObservedValue::U64(*n),
            ObservedValue::I64(n) => ObservedValue::I64(*n),
        }
    }
}

/// Decimal spelling of a signed number.
pub open spec fn signed_decimal(n: int) -> Seq<char> {
    if n < 0 {
        seq!['-'] + decimal((-n) as nat)
    } else {
        decimal(n as nat)
    }
}

/// The text of a value: the text itself, `true`/`false`, or decimal.
pub open spec fn value_text(v: ValueModel) -> Seq<char> {
    match v {
        ValueModel::Text(s) => s,
        ValueModel::Bool(b) => if b {
            "true"@
        } else {
            "false"@
        },
        ValueModel::U64(n) => decimal(n as nat),
        ValueModel::I64(n) => signed_decimal(n as int),
    }
}

impl ObservedValue {
    /// The text of this value.
    pub fn to_text(&self) -> (r: String)
        ensures
            r@ == value_text(self@),
    {
        match self {
            ObservedValue::Text(s) => s.clone(),
            ObservedValue::Bool(b) => if *b {
                owned("true")
            } else {
                owned("false")
            },
            ObservedValue::U64(n) => {
                let mut out = String::new();
                append_decimal(&mut out, *n);
                assert(out@ =~= decimal(*n as nat));
                out
            },
            ObservedValue::I64(n) => {
                let mut out = String::new();
                if *n < 0 {
                    let magnitude: u64 = if *n == i64::MIN {
                        9_223_372_036_854_775_808u64
                    } else {
                        (-*n) as u64
                    };
                    append_str(&mut out, "-");
                    proof {
                        reveal_strlit("-");
                    }
                    append_decimal(&mut out, magnitude);
                    assert(out@ =~= seq!['-'] + decimal((-(*n as int)) as nat));
                } else {
                    append_decimal(&mut out, *n as u64);
                    assert(out@ =~= decimal(*n as nat));
                }
                out
            },
        }
    }
}

#[derive(Clone, Copy, Debug, PartialEq, Eq, PartialOrd, Ord)]
pub enum ProviderAvailability {
    Available,
    Degraded,
    Unavailable,
}

/// The wire name of an availability.
pub open spec fn availability_name(a: ProviderAvailability) -> Seq<char> {
    match a {
        ProviderAvailability::Available => "available"@,
        ProviderAvailability::Degraded => "degraded"@,
        ProviderAvailability::Unavailable => "unavailable"@,
    }
}

impl ProviderAvailability {
    pub fn as_str(self) -> (r: &'static str)
        ensures
            r@ == availability_name(self),
    {
        match self {
            ProviderAvailability::Available => "available",
            ProviderAvailability::Degraded => "degraded",
            ProviderAvailability::Unavailable => "unavailable",
        }
    }
}

/// A provider's health.
#[derive(Debug, PartialEq, Eq)]
pub struct ProviderHealth {
    pub provider: ProviderId,
    pub availability: ProviderAvailability,
    pub reason: Option<String>,
}

impl Clone for ProviderHealth {
    fn clone(&self) -> (r: Self)
        ensures
            r.provider@ == self.provider@,
            r.availability == self.availability,
            crate::planner::opt_view(r.reason) == crate::planner::opt_view(self.reason),
    {
        ProviderHealth {
            provider: self.provider.clone(),
            availability: self.availability,
            reason: crate::planner::clone_opt(&self.reason),
        }
    }
}

#[derive(Clone, Copy, Debug, PartialEq, Eq)]
pub enum FreshnessState {
    Current,
    Stale,
    Future,
}

/// The wire name of a freshness state.
pub open spec fn freshness_state_name(f: FreshnessState) -> Seq<char> {
    match f {
        FreshnessState::Current => "current"@,
        FreshnessState::Stale => "stale"@,
        FreshnessState::Future => "future"@,
    }
}

impl FreshnessState {
    pub fn as_str(self) -> (r: &'static str)
        ensures
            r@ == freshness_state_name(self),
    {
        match self {
            FreshnessState::Current => "current",
            FreshnessState::Stale => "stale",
            FreshnessState::Future => "future",
        }
    }
}

/// Why an observation was refused.
#[derive(Clone, Copy, Debug, PartialEq, Eq)]
pub enum ObservationValidationError {
    ProviderMismatch,
    ResourceMismatch,
    CapabilityMismatch,
    MissingTimestamp,
    InvalidValidityWindow,
    EmptyEvidence,
    InvalidAttributeKey,
    StaleEvidence,
    FutureEvidence,
}

/// The human-readable text of an observation error.
pub open spec fn observation_error_message(e: ObservationValidationError) -> Seq<char> {
    match e {
        ObservationValidationError::ProviderMismatch => "observation provider identity mismatch"@,
        ObservationValidationError::ResourceMismatch => "observation resource identity mismatch"@,
        ObservationValidationError::CapabilityMismatch => "observation capability identity mismatch"@,
        ObservationValidationError::MissingTimestamp => "observation timestamp is missing"@,
        ObservationValidationError::InvalidValidityWindow => "observation validity window must be greater than zero"@,
        ObservationValidationError::EmptyEvidence => "observation evidence cannot be empty"@,
        ObservationValidationError::InvalidAttributeKey => "observation attribute key is invalid"@,
        ObservationValidationError::StaleEvidence => "observation evidence is stale"@,
        ObservationValidationError::FutureEvidence => "observation timestamp is in the future"@,
    }
}

impl ObservationValidationError {
    /// The human-readable text of this error.
    pub fn message(&self) -> (r: String)
        ensures
            r@ == observation_error_message(*self),
    {
        match self {
            ObservationValidationError::ProviderMismatch => owned("observation provider identity mismatch"),
            ObservationValidationError::ResourceMismatch => owned("observation resource identity mismatch"),
            ObservationValidationError::CapabilityMismatch => owned("observation capability identity mismatch"),
            ObservationValidationError::MissingTimestamp => owned("observation timestamp is missing"),
            ObservationValidationError::InvalidValidityWindow => owned("observation validity window must be greater than zero"),
            ObservationValidationError::EmptyEvidence => owned("observation evidence cannot be empty"),
            ObservationValidationError::InvalidAttributeKey => owned("observation attribute key is invalid"),
            ObservationValidationError::StaleEvidence => owned("observation evidence is stale"),
            ObservationValidationError::FutureEvidence => owned("observation timestamp is in the future"),
        }
    }
}

/// One observation of one resource by one provider capability.
#[derive(Debug)]
pub struct ObservationEnvelope {
    pub provider: ProviderId,
    pub resource: ResourceId,
    pub capability: CapabilityId,
    pub authority: ObservationAuthority,
    pub observed_at_unix_ms: u64,
    pub valid_for_ms: u64,
    pub sequence: u64,
    pub attributes: TextMap<ObservedValue>,
}

/// The texts of an observation envelope.
pub struct EnvelopeModel {
    pub provider: Seq<char>,
    pub resource: Seq<char>,
    pub capability: Seq<char>,
    pub authority: ObservationAuthority,
    pub observed_at: u64,
    pub valid_for: u64,
    pub sequence: u64,
    pub attributes: Seq<(Seq<char>, ValueModel)>,
}

impl View for ObservationEnvelope {
    type V = EnvelopeModel;

    open spec fn view(&self) -> EnvelopeModel {
        EnvelopeModel {
            provider: self.provider@,
            resource: self.resource@,
            capability: self.capability@,
            authority: self.authority,
            observed_at: self.observed_at_unix_ms,
            valid_for: self.valid_for_ms,
            sequence: self.sequence,
            attributes: self.attributes@,
        }
    }
}

impl Clone for ObservationEnvelope {
    fn clone(&self) -> (r: Self)
        ensures
            r@ == self@,
    {
        ObservationEnvelope {
            provider: self.provider.clone(),
            resource: self.resource.clone(),
            capability: self.capability.clone(),
            authority: self.authority,
            observed_at_unix_ms: self.observed_at_unix_ms,
            valid_for_ms: self.valid_for_ms,
            sequence: self.sequence,
            attributes: self.attributes.clone_exact(),
        }
    }
}

/// An attribute key that is blank or holds a control character.
pub open spec fn bad_attribute_key(k: Seq<char>) -> bool {
    is_blank_seq(k) || has_control(k)
}

/// The first rule an envelope breaks against the expected identity, if any.
pub open spec fn envelope_fault(
    e: EnvelopeModel,
    provider: Seq<char>,
    resource: Seq<char>,
    capability: Seq<char>,
) -> Option<ObservationValidationError> {
    if e.provider != provider {
        Some(ObservationValidationError::ProviderMismatch)
    } else if e.resource != resource {
        Some(ObservationValidationError::ResourceMismatch)
    } else if e.capability != capability {
        Some(ObservationValidationError::CapabilityMismatch)
    } else if e.observed_at == 0 {
        Some(ObservationValidationError::MissingTimestamp)
    } else if e.valid_for == 0 {
        Some(ObservationValidationError::InvalidValidityWindow)
    } else if e.attributes.len() == 0 {
        Some(ObservationValidationError::EmptyEvidence)
    } else if exists|i: int| 0 <= i < e.attributes.len() && bad_attribute_key(#[trigger] e.attributes[i].0) {
        Some(ObservationValidationError::InvalidAttributeKey)
    } else {
        None
    }
}

/// The last instant an observation is current: its time plus its validity,
/// saturating at the largest time.
pub open spec fn expires_at(observed_at: u64, valid_for: u64) -> int {
    if observed_at + valid_for > u64::MAX {
        u64::MAX as int
    } else {
        observed_at + valid_for
    }
}

/// Freshness at `now`: future before the observation, current up to and
/// including its expiry, stale after.
pub open spec fn freshness(observed_at: u64, valid_for: u64, now: u64) -> FreshnessState {
    if now < observed_at {
        FreshnessState::Future
    } else if now <= expires_at(observed_at, valid_for) {
        FreshnessState::Current
    } else {
        FreshnessState::Stale
    }
}

/// The identifier of an observation: a versioned prefix, then provider,
/// resource and capability each preceded by its UTF-8 byte length, then the
/// time and the sequence number.
pub open spec fn evidence_id_spec(
    provider: Seq<char>,
    resource: Seq<char>,
    capability: Seq<char>,
    observed_at: u64,
    sequence: u64,
) -> Seq<char> {
    "observation:v1:"@ + decimal(utf8_len(provider)) + ":"@ + provider + ":"@ + decimal(
        utf8_len(resource),
    ) + ":"@ + resource + ":"@ + decimal(utf8_len(capability)) + ":"@ + capability + ":"@
        + decimal(observed_at as nat) + ":"@ + decimal(sequence as nat)
}

proof fn lemma_utf8_len_concat(a: Seq<char>, b: Seq<char>)
    ensures
        crate::text::utf8_len(a + b) == crate::text::utf8_len(a) + crate::text::utf8_len(b),
    decreases a.len(),
{
    if a.len() > 0 {
        assert((a + b).drop_first() =~= a.drop_first() + b);
        assert((a + b)[0] == a[0]);
        lemma_utf8_len_concat(a.drop_first(), b);
    } else {
        assert(a + b =~= b);
    }
}

proof fn lemma_utf8_len_positive(a: Seq<char>)
    requires
        a.len() > 0,
    ensures
        crate::text::utf8_len(a) > 0,
{
    assert(vstd::utf8::encode_scalar(a[0] as u32).len() >= 1);
}

/// Two texts that each end at the first colon split the same way.
proof fn lemma_split_at_colon(a1: Seq<char>, b1: Seq<char>, a2: Seq<char>, b2: Seq<char>)
    requires
        forall|i: int| 0 <= i < a1.len() ==> #[trigger] a1[i] != ':',
        forall|i: int| 0 <= i < a2.len() ==> #[trigger] a2[i] != ':',
        a1 + seq![':'] + b1 == a2 + seq![':'] + b2,
    ensures
        a1 == a2,
        b1 == b2,
{
    let t1 = a1 + seq![':'] + b1;
    let t2 = a2 + seq![':'] + b2;
    if a1.len() < a2.len() {
        assert(t1[a1.len() as int] == ':');
        assert(t2[a1.len() as int] == a2[a1.len() as int]);
    } else if a2.len() < a1.len() {
        assert(t2[a2.len() as int] == ':');
        assert(t1[a2.len() as int] == a1[a2.len() as int]);
    } else {
        assert(a1 =~= t1.take(a1.len() as int));
        assert(a2 =~= t2.take(a2.len() as int));
        assert(b1 =~= t1.skip(a1.len() as int + 1));
        assert(b2 =~= t2.skip(a2.len() as int + 1));
    }
}

proof fn lemma_decimal_no_colon(n: nat)
    ensures
        forall|i: int| 0 <= i < decimal(n).len() ==> #[trigger] decimal(n)[i] != ':',
{
    crate::text::lemma_decimal_digits(n);
}

/// A field preceded by its UTF-8 length and followed by a colon is read back
/// exactly, whatever follows it.
proof fn lemma_length_prefixed(x1: Seq<char>, t1: Seq<char>, x2: Seq<char>, t2: Seq<char>)
    requires
        decimal(utf8_len(x1)) + seq![':'] + (x1 + seq![':'] + t1) == decimal(utf8_len(x2)) + seq![':'] + (
        x2 + seq![':'] + t2),
    ensures
        x1 == x2,
        t1 == t2,
{
    lemma_decimal_no_colon(utf8_len(x1));
    lemma_decimal_no_colon(utf8_len(x2));
    lemma_split_at_colon(decimal(utf8_len(x1)), x1 + seq![':'] + t1, decimal(utf8_len(x2)), x2 + seq![':'] + t2);
    crate::text::lemma_decimal_digits(utf8_len(x1));
    crate::text::lemma_decimal_digits(utf8_len(x2));
    assert(utf8_len(x1) == utf8_len(x2));
    let r1 = x1 + seq![':'] + t1;
    let r2 = x2 + seq![':'] + t2;
    if x1.len() < x2.len() {
        let y = x2.skip(x1.len() as int);
        assert(x1 =~= r1.take(x1.len() as int));
        assert(x2.take(x1.len() as int) =~= r2.take(x1.len() as int));
        assert(x2 =~= x1 + y);
        lemma_utf8_len_concat(x1, y);
        lemma_utf8_len_positive(y);
    } else if x2.len() < x1.len() {
        let y = x1.skip(x2.len() as int);
        assert(x2 =~= r2.take(x2.len() as int));
        assert(x1.take(x2.len() as int) =~= r1.take(x2.len() as int));
        assert(x1 =~= x2 + y);
        lemma_utf8_len_concat(x2, y);
        lemma_utf8_len_positive(y);
    } else {
        assert(x1 =~= r1.take(x1.len() as int));
        assert(x2 =~= r2.take(x2.len() as int));
        assert(t1 =~= r1.skip(x1.len() as int + 1));
        assert(t2 =~= r2.skip(x2.len() as int + 1));
    }
}

proof fn lemma_id_shape(
    h: Seq<char>,
    d1: Seq<char>,
    p: Seq<char>,
    d2: Seq<char>,
    r: Seq<char>,
    d3: Seq<char>,
    c: Seq<char>,
    ta: Seq<char>,
    ts: Seq<char>,
)
    ensures
        h + d1 + ":"@ + p + ":"@ + d2 + ":"@ + r + ":"@ + d3 + ":"@ + c + ":"@ + ta + ":"@ + ts == h + (d1
            + seq![':'] + (p + seq![':'] + (d2 + seq![':'] + (r + seq![':'] + (d3 + seq![':'] + (c
            + seq![':'] + (ta + seq![':'] + ts))))))),
{
    reveal_strlit(":");
    assert(":"@ =~= seq![':']);
    assert(h + d1 + ":"@ + p + ":"@ + d2 + ":"@ + r + ":"@ + d3 + ":"@ + c + ":"@ + ta + ":"@ + ts =~= h + (d1
        + seq![':'] + (p + seq![':'] + (d2 + seq![':'] + (r + seq![':'] + (d3 + seq![':'] + (c
        + seq![':'] + (ta + seq![':'] + ts))))))));
}

proof fn lemma_same_head(h: Seq<char>, x: Seq<char>, y: Seq<char>)
    requires
        h + x == h + y,
    ensures
        x == y,
{
    assert(x =~= (h + x).skip(h.len() as int));
    assert(y =~= (h + y).skip(h.len() as int));
}

/// Observation identifiers are injective: equal identifiers come from equal
/// provider, resource, capability, time and sequence.
pub proof fn law_evidence_id_determines_fields(
    p1: Seq<char>,
    r1: Seq<char>,
    c1: Seq<char>,
    at1: u64,
    seq1: u64,
    p2: Seq<char>,
    r2: Seq<char>,
    c2: Seq<char>,
    at2: u64,
    seq2: u64,
)
    requires
        evidence_id_spec(p1, r1, c1, at1, seq1) == evidence_id_spec(p2, r2, c2, at2, seq2),
    ensures
        p1 == p2,
        r1 == r2,
        c1 == c2,
        at1 == at2,
        seq1 == seq2,
{
    let colon = seq![':'];
    let head = "observation:v1:"@;
    let (da1, db1, dc1, dt1, ds1) = (decimal(utf8_len(p1)), decimal(utf8_len(r1)), decimal(utf8_len(c1)), decimal(at1 as nat), decimal(seq1 as nat));
    let (da2, db2, dc2, dt2, ds2) = (decimal(utf8_len(p2)), decimal(utf8_len(r2)), decimal(utf8_len(c2)), decimal(at2 as nat), decimal(seq2 as nat));
    lemma_id_shape(head, da1, p1, db1, r1, dc1, c1, dt1, ds1);
    lemma_id_shape(head, da2, p2, db2, r2, dc2, c2, dt2, ds2);
    let tail1 = dt1 + colon + ds1;
    let tail2 = dt2 + colon + ds2;
    let f3a = dc1 + colon + (c1 + colon + tail1);
    let f3b = dc2 + colon + (c2 + colon + tail2);
    let f2a = db1 + colon + (r1 + colon + f3a);
    let f2b = db2 + colon + (r2 + colon + f3b);
    let f1a = da1 + colon + (p1 + colon + f2a);
    let f1b = da2 + colon + (p2 + colon + f2b);
    lemma_same_head(head, f1a, f1b);
    lemma_length_prefixed(p1, f2a, p2, f2b);
    lemma_length_prefixed(r1, f3a, r2, f3b);
    lemma_length_prefixed(c1, tail1, c2, tail2);
    lemma_decimal_no_colon(at1 as nat);
    lemma_decimal_no_colon(at2 as nat);
    lemma_split_at_colon(dt1, ds1, dt2, ds2);
    crate::text::lemma_decimal_digits(at1 as nat);
    crate::text::lemma_decimal_digits(at2 as nat);
    crate::text::lemma_decimal_digits(seq1 as nat);
    crate::text::lemma_decimal_digits(seq2 as nat);
}

impl ObservationEnvelope {
    /// Checks the envelope against the expected identity and the rules of
    /// `envelope_fault`.
    pub fn validate(
        &self,
        expected_provider: &ProviderId,
        expected_resource: &ResourceId,
        expected_capability: &CapabilityId,
    ) -> (r: Result<(), ObservationValidationError>)
        ensures
            match r {
                Ok(()) => envelope_fault(self@, expected_provider@, expected_resource@, expected_capability@) is None,
                Err(e) => envelope_fault(self@, expected_provider@, expected_resource@, expected_capability@) == Some(e),
            },
    {
        if !self.provider.same(expected_provider) {
            return Err(ObservationValidationError::ProviderMismatch);
        }
        if !self.resource.same(expected_resource) {
            return Err(ObservationValidationError::ResourceMismatch);
        }
        if !self.capability.same(expected_capability) {
            return Err(ObservationValidationError::CapabilityMismatch);
        }
        if self.observed_at_unix_ms == 0 {
            return Err(ObservationValidationError::MissingTimestamp);
        }
        if self.valid_for_ms == 0 {
            return Err(ObservationValidationError::InvalidValidityWindow);
        }
        if self.attributes.len() == 0 {
            return Err(ObservationValidationError::EmptyEvidence);
        }
        let mut i: usize = 0;
        while i < self.attributes.len()
            invariant
                i <= self@.attributes.len(),
                self@.provider == expected_provider@,
                self@.resource == expected_resource@,
                self@.capability == expected_capability@,
                self@.observed_at != 0,
                self@.valid_for != 0,
                self@.attributes.len() != 0,
                forall|j: int| 0 <= j < i ==> !bad_attribute_key(#[trigger] self@.attributes[j].0),
            decreases self@.attributes.len() - i,
        {
            let key = self.attributes.key_at(i);
            if is_blank(key.as_str()) || contains_control(key.as_str()) {
                assert(bad_attribute_key(self@.attributes[i as int].0));
                return Err(ObservationValidationError::InvalidAttributeKey);
            }
            i = i + 1;
        }
        Ok(())
    }

    /// Freshness of the observation at `now`.
    pub fn freshness_at(&self, now_unix_ms: u64) -> (r: FreshnessState)
        ensures
            r == freshness(self.observed_at_unix_ms, self.valid_for_ms, now_unix_ms),
    {
        if now_unix_ms < self.observed_at_unix_ms {
            return FreshnessState::Future;
        }
        let expires = self.observed_at_unix_ms.saturating_add(self.valid_for_ms);
        if now_unix_ms <= expires {
            FreshnessState::Current
        } else {
            FreshnessState::Stale
        }
    }

    /// Succeeds only while the observation is current.
    pub fn require_current(&self, now_unix_ms: u64) -> (r: Result<(), ObservationValidationError>)
        ensures
            match freshness(self.observed_at_unix_ms, self.valid_for_ms, now_unix_ms) {
                FreshnessState::Current => r is Ok,
                FreshnessState::Stale => r == Err::<(), ObservationValidationError>(ObservationValidationError::StaleEvidence),
                FreshnessState::Future => r == Err::<(), ObservationValidationError>(ObservationValidationError::FutureEvidence),
            },
    {
        match self.freshness_at(now_unix_ms) {
            FreshnessState::Current => Ok(()),
            FreshnessState::Stale => Err(ObservationValidationError::StaleEvidence),
            FreshnessState::Future => Err(ObservationValidationError::FutureEvidence),
        }
    }

    /// The identifier of this observation, per `evidence_id_spec`.
    pub fn evidence_id(&self) -> (r: String)
        ensures
            r@ == evidence_id_spec(
                self.provider@,
                self.resource@,
                self.capability@,
                self.observed_at_unix_ms,
                self.sequence,
            ),
    {
        let provider = self.provider.as_str();
        let resource = self.resource.as_str();
        let capability = self.capability.as_str();
        let mut out = owned("observation:v1:");
        append_decimal(&mut out, byte_len(provider) as u64);
        append_str(&mut out, ":");
        append_str(&mut out, provider);
        append_str(&mut out, ":");
        append_decimal(&mut out, byte_len(resource) as u64);
        append_str(&mut out, ":");
        append_str(&mut out, resource);
        append_str(&mut out, ":");
        append_decimal(&mut out, byte_len(capability) as u64);
        append_str(&mut out, ":");
        append_str(&mut out, capability);
        append_str(&mut out, ":");
        append_decimal(&mut out, self.observed_at_unix_ms);
        append_str(&mut out, ":");
        append_decimal(&mut out, self.sequence);
        out
    }
}

/// Freshness fails closed: an observation is current only from its time up
/// to its expiry.
pub proof fn law_current_only_inside_window(observed_at: u64, valid_for: u64, now: u64)
    ensures
        freshness(observed_at, valid_for, now) == FreshnessState::Current <==> (observed_at <= now
            && now <= expires_at(observed_at, valid_for)),
{
}

} // verus!
