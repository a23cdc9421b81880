//! Validated identifiers and the error they report.
use vstd::prelude::*;

use crate::text::{
    append_str, byte_len, contains_control, has_control, owned,
    printable_ascii, utf8_len,
};

verus! {

/// Identifiers that are compared by their text.
pub trait TextId: View<V = Seq<char>> + Sized {
    /// The label that errors about this kind of identifier carry.
    spec fn label() -> &'static str;

    fn same_text(&self, other: &Self) -> (r: bool)
        ensures
            r == (self@ == other@),
    ;

    /// The identifier's text.
    fn text_of(&self) -> (r: &str)
        ensures
            r@ == self@,
    ;

    /// Accepts a valid token as an identifier of this kind.
    fn parse_text(value: &str) -> (r: Result<Self, ValidationError>)
        ensures
            match r {
                Ok(id) => valid_token(value@) && id@ == value@,
                Err(e) => token_error(Self::label(), value@) == Some(e),
            },
    ;
}

/// Why a value was rejected.
#[derive(Clone, Copy, Debug, PartialEq, Eq)]
pub enum ValidationError {
    Empty(&'static str),
    TooLong(&'static str),
    ControlCharacter(&'static str),
    MissingSemanticOrigin,
    DuplicateSemanticOrigin(&'static str),
    NoEffects,
    NoVerification,
}

/// What is wrong with a token, independent of what it names.
pub enum TokenFault {
    Empty,
    TooLong,
    ControlCharacter,
}

/// The first rule that a token breaks, if any.
pub open spec fn token_fault(s: Seq<char>) -> Option<TokenFault> {
    if s.len() == 0 {
        Some(TokenFault::Empty)
    } else if utf8_len(s) > 256 {
        Some(TokenFault::TooLong)
    } else if has_control(s) {
        Some(TokenFault::ControlCharacter)
    } else {
        None
    }
}

/// A token is non-empty, at most 256 UTF-8 bytes, and free of control characters.
pub open spec fn valid_token(s: Seq<char>) -> bool {
    token_fault(s) is None
}

/// A non-empty printable ASCII text of at most 256 characters is a valid token.
pub proof fn lemma_printable_token(s: Seq<char>)
    requires
        0 < s.len() <= 256,
        printable_ascii(s),
    ensures
        valid_token(s),
{
    assert forall|i: int| 0 <= i < s.len() implies (#[trigger] s[i] as u32) <= 0x7f by {
        assert((s[i] as u32) <= 0x7e);
    }
    crate::text::lemma_ascii_utf8_len(s);
    if has_control(s) {
        let i = choose|i: int| 0 <= i < s.len() && crate::text::char_is_control(#[trigger] s[i]);
        assert(0x20 <= (s[i] as u32));
    }
}

/// The error reported for a token fault about the named kind of value.
pub open spec fn token_error(label: &'static str, s: Seq<char>) -> Option<ValidationError> {
    match token_fault(s) {
        Some(TokenFault::Empty) => Some(ValidationError::Empty(label)),
        Some(TokenFault::TooLong) => Some(ValidationError::TooLong(label)),
        Some(TokenFault::ControlCharacter) => Some(ValidationError::ControlCharacter(label)),
        None => None,
    }
}

/// Checks a token against the rules of `token_fault`.
pub fn validate_token(label: &'static str, value: &str) -> (r: Result<(), ValidationError>)
    ensures
        match r {
            Ok(()) => valid_token(value@),
            Err(e) => token_error(label, value@) == Some(e),
        },
{
    if value.is_empty() {
        return Err(ValidationError::Empty(label));
    }
    if byte_len(value) > 256 {
        return Err(ValidationError::TooLong(label));
    }
    if contains_control(value) {
        return Err(ValidationError::ControlCharacter(label));
    }
    Ok(())
}

/// The human-readable text of a validation error.
pub open spec fn validation_message(e: ValidationError) -> Seq<char> {
    match e {
        ValidationError::Empty(label) => label@ + " cannot be empty"@,
        ValidationError::TooLong(label) => label@ + " is too long"@,
        ValidationError::ControlCharacter(label) => label@ + " contains control characters"@,
        ValidationError::MissingSemanticOrigin =>
            "managed state must retain an intent, requirement, or capability origin"@,
        ValidationError::DuplicateSemanticOrigin(kind) =>
            "semantic reason contains duplicate "@ + kind@ + " origin"@,
        ValidationError::NoEffects => "an action plan must contain at least one effect"@,
        ValidationError::NoVerification => "an action plan must contain verification"@,
    }
}

impl ValidationError {
    /// The human-readable text of this error.
    pub fn message(&self) -> (r: String)
        ensures
            r@ == validation_message(*self),
    {
        match self {
            ValidationError::Empty(label) => {
                let mut s = owned(label);
                append_str(&mut s, " cannot be empty");
                s
            },
            ValidationError::TooLong(label) => {
                let mut s = owned(label);
                append_str(&mut s, " is too long");
                s
            },
            ValidationError::ControlCharacter(label) => {
                let mut s = owned(label);
                append_str(&mut s, " contains control characters");
                s
            },
            ValidationError::MissingSemanticOrigin => owned(
                "managed state must retain an intent, requirement, or capability origin",
            ),
            ValidationError::DuplicateSemanticOrigin(kind) => {
                let mut s = owned("semantic reason contains duplicate ");
                append_str(&mut s, kind);
                append_str(&mut s, " origin");
                s
            },
            ValidationError::NoEffects => owned("an action plan must contain at least one effect"),
            ValidationError::NoVerification => owned("an action plan must contain verification"),
        }
    }
}

/// Validated identifier of an actor.
#[derive(Debug, PartialEq, Eq, PartialOrd, Ord, Hash)]
pub struct ActorId(String);

impl ActorId {
    /// Accepts a non-empty value of at most 256 UTF-8 bytes without control characters.
    pub fn new(value: &str) -> (r: Result<Self, ValidationError>)
        ensures
            match r {
                Ok(id) => valid_token(value@) && id@ == value@,
                Err(e) => token_error("actor id", value@) == Some(e),
            },
    {
        match validate_token("actor id", value) {
            Ok(()) => Ok(ActorId(owned(value))),
            Err(e) => Err(e),
        }
    }

    #[verifier::type_invariant]
    closed spec fn inv(self) -> bool {
        valid_token(self.0@)
    }

    /// The identifier's text, which always satisfies the token rules.
    pub fn as_str(&self) -> (r: &str)
        ensures
            r@ == self@,
            valid_token(r@),
    {
        proof {
            use_type_invariant(self);
        }
        self.0.as_str()
    }

    /// Whether two identifiers have the same text.
    pub fn same(&self, other: &Self) -> (r: bool)
        ensures
            r == (self@ == other@),
    {
        self.0 == other.0
    }
}

impl View for ActorId {
    type V = Seq<char>;

    closed spec fn view(&self) -> Seq<char> {
        self.0@
    }
}

impl TextId for ActorId {
    fn text_of(&self) -> (r: &str) {
        self.as_str()
    }

    open spec fn label() -> &'static str {
        "actor id"
    }

    fn parse_text(value: &str) -> (r: Result<Self, ValidationError>) {
        ActorId::new(value)
    }

    fn same_text(&self, other: &Self) -> (r: bool) {
        self.0 == other.0
    }
}

impl Clone for ActorId {
    fn clone(&self) -> (r: Self)
        ensures
            r == *self,
    {
        proof {
            use_type_invariant(self);
        }
        ActorId(self.0.clone())
    }
}

/// Validated identifier of a request.
#[derive(Debug, PartialEq, Eq, PartialOrd, Ord, Hash)]
pub struct RequestId(String);

impl RequestId {
    /// Accepts a non-empty value of at most 256 UTF-8 bytes without control characters.
    pub fn new(value: &str) -> (r: Result<Self, ValidationError>)
        ensures
            match r {
                Ok(id) => valid_token(value@) && id@ == value@,
                Err(e) => token_error("request id", value@) == Some(e),
            },
    {
        match validate_token("request id", value) {
            Ok(()) => Ok(RequestId(owned(value))),
            Err(e) => Err(e),
        }
    }

    #[verifier::type_invariant]
    closed spec fn inv(self) -> bool {
        valid_token(self.0@)
    }

    /// The identifier's text, which always satisfies the token rules.
    pub fn as_str(&self) -> (r: &str)
        ensures
            r@ == self@,
            valid_token(r@),
    {
        proof {
            use_type_invariant(self);
        }
        self.0.as_str()
    }

    /// Whether two identifiers have the same text.
    pub fn same(&self, other: &Self) -> (r: bool)
        ensures
            r == (self@ == other@),
    {
        self.0 == other.0
    }
}

impl View for RequestId {
    type V = Seq<char>;

    closed spec fn view(&self) -> Seq<char> {
        self.0@
    }
}

impl TextId for RequestId {
    fn text_of(&self) -> (r: &str) {
        self.as_str()
    }

    open spec fn label() -> &'static str {
        "request id"
    }

    fn parse_text(value: &str) -> (r: Result<Self, ValidationError>) {
        RequestId::new(value)
    }

    fn same_text(&self, other: &Self) -> (r: bool) {
        self.0 == other.0
    }
}

impl Clone for RequestId {
    fn clone(&self) -> (r: Self)
        ensures
            r == *self,
    {
        proof {
            use_type_invariant(self);
        }
        RequestId(self.0.clone())
    }
}

/// Validated identifier of a plan.
#[derive(Debug, PartialEq, Eq, PartialOrd, Ord, Hash)]
pub struct PlanId(String);

impl PlanId {
    /// Accepts a non-empty value of at most 256 UTF-8 bytes without control characters.
    pub fn new(value: &str) -> (r: Result<Self, ValidationError>)
        ensures
            match r {
                Ok(id) => valid_token(value@) && id@ == value@,
                Err(e) => token_error("plan id", value@) == Some(e),
            },
    {
        match validate_token("plan id", value) {
            Ok(()) => Ok(PlanId(owned(value))),
            Err(e) => Err(e),
        }
    }

    /// The plan identifier that a request identifier names: the same text,
    /// which is already a valid token.
    pub fn from_request_id(id: &RequestId) -> (r: Self)
        ensures
            r@ == id@,
    {
        PlanId(owned(id.as_str()))
    }

    #[verifier::type_invariant]
    closed spec fn inv(self) -> bool {
        valid_token(self.0@)
    }

    /// The identifier's text, which always satisfies the token rules.
    pub fn as_str(&self) -> (r: &str)
        ensures
            r@ == self@,
            valid_token(r@),
    {
        proof {
            use_type_invariant(self);
        }
        self.0.as_str()
    }

    /// Whether two identifiers have the same text.
    pub fn same(&self, other: &Self) -> (r: bool)
        ensures
            r == (self@ == other@),
    {
        self.0 == other.0
    }
}

impl View for PlanId {
    type V = Seq<char>;

    closed spec fn view(&self) -> Seq<char> {
        self.0@
    }
}

impl TextId for PlanId {
    fn text_of(&self) -> (r: &str) {
        self.as_str()
    }

    open spec fn label() -> &'static str {
        "plan id"
    }

    fn parse_text(value: &str) -> (r: Result<Self, ValidationError>) {
        PlanId::new(value)
    }

    fn same_text(&self, other: &Self) -> (r: bool) {
        self.0 == other.0
    }
}

impl Clone for PlanId {
    fn clone(&self) -> (r: Self)
        ensures
            r == *self,
    {
        proof {
            use_type_invariant(self);
        }
        PlanId(self.0.clone())
    }
}

/// Validated identifier of an intent.
#[derive(Debug, PartialEq, Eq, PartialOrd, Ord, Hash)]
pub struct IntentId(String);

impl IntentId {
    /// Accepts a non-empty value of at most 256 UTF-8 bytes without control characters.
    pub fn new(value: &str) -> (r: Result<Self, ValidationError>)
        ensures
            match r {
                Ok(id) => valid_token(value@) && id@ == value@,
                Err(e) => token_error("intent id", value@) == Some(e),
            },
    {
        match validate_token("intent id", value) {
            Ok(()) => Ok(IntentId(owned(value))),
            Err(e) => Err(e),
        }
    }

    #[verifier::type_invariant]
    closed spec fn inv(self) -> bool {
        valid_token(self.0@)
    }

    /// The identifier's text, which always satisfies the token rules.
    pub fn as_str(&self) -> (r: &str)
        ensures
            r@ == self@,
            valid_token(r@),
    {
        proof {
            use_type_invariant(self);
        }
        self.0.as_str()
    }

    /// Whether two identifiers have the same text.
    pub fn same(&self, other: &Self) -> (r: bool)
        ensures
            r == (self@ == other@),
    {
        self.0 == other.0
    }
}

impl View for IntentId {
    type V = Seq<char>;

    closed spec fn view(&self) -> Seq<char> {
        self.0@
    }
}

impl TextId for IntentId {
    fn text_of(&self) -> (r: &str) {
        self.as_str()
    }

    open spec fn label() -> &'static str {
        "intent id"
    }

    fn parse_text(value: &str) -> (r: Result<Self, ValidationError>) {
        IntentId::new(value)
    }

    fn same_text(&self, other: &Self) -> (r: bool) {
        self.0 == other.0
    }
}

impl Clone for IntentId {
    fn clone(&self) -> (r: Self)
        ensures
            r == *self,
    {
        proof {
            use_type_invariant(self);
        }
        IntentId(self.0.clone())
    }
}

/// Validated identifier of a reusable setup.
#[derive(Debug, PartialEq, Eq, PartialOrd, Ord, Hash)]
pub struct SetupId(String);

impl SetupId {
    /// Accepts a non-empty value of at most 256 UTF-8 bytes without control characters.
    pub fn new(value: &str) -> (r: Result<Self, ValidationError>)
        ensures
            match r {
                Ok(id) => valid_token(value@) && id@ == value@,
                Err(e) => token_error("setup id", value@) == Some(e),
            },
    {
        match validate_token("setup id", value) {
            Ok(()) => Ok(SetupId(owned(value))),
            Err(e) => Err(e),
        }
    }

    #[verifier::type_invariant]
    closed spec fn inv(self) -> bool {
        valid_token(self.0@)
    }

    /// The identifier's text, which always satisfies the token rules.
    pub fn as_str(&self) -> (r: &str)
        ensures
            r@ == self@,
            valid_token(r@),
    {
        proof {
            use_type_invariant(self);
        }
        self.0.as_str()
    }

    /// Whether two identifiers have the same text.
    pub fn same(&self, other: &Self) -> (r: bool)
        ensures
            r == (self@ == other@),
    {
        self.0 == other.0
    }
}

impl View for SetupId {
    type V = Seq<char>;

    closed spec fn view(&self) -> Seq<char> {
        self.0@
    }
}

impl TextId for SetupId {
    fn text_of(&self) -> (r: &str) {
        self.as_str()
    }

    open spec fn label() -> &'static str {
        "setup id"
    }

    fn parse_text(value: &str) -> (r: Result<Self, ValidationError>) {
        SetupId::new(value)
    }

    fn same_text(&self, other: &Self) -> (r: bool) {
        self.0 == other.0
    }
}

impl Clone for SetupId {
    fn clone(&self) -> (r: Self)
        ensures
            r == *self,
    {
        proof {
            use_type_invariant(self);
        }
        SetupId(self.0.clone())
    }
}

/// Validated identifier of a requirement.
#[derive(Debug, PartialEq, Eq, PartialOrd, Ord, Hash)]
pub struct RequirementId(String);

impl RequirementId {
    /// Accepts a non-empty value of at most 256 UTF-8 bytes without control characters.
    pub fn new(value: &str) -> (r: Result<Self, ValidationError>)
        ensures
            match r {
                Ok(id) => valid_token(value@) && id@ == value@,
                Err(e) => token_error("requirement id", value@) == Some(e),
            },
    {
        match validate_token("requirement id", value) {
            Ok(()) => Ok(RequirementId(owned(value))),
            Err(e) => Err(e),
        }
    }

    #[verifier::type_invariant]
    closed spec fn inv(self) -> bool {
        valid_token(self.0@)
    }

    /// The identifier's text, which always satisfies the token rules.
    pub fn as_str(&self) -> (r: &str)
        ensures
            r@ == self@,
            valid_token(r@),
    {
        proof {
            use_type_invariant(self);
        }
        self.0.as_str()
    }

    /// Whether two identifiers have the same text.
    pub fn same(&self, other: &Self) -> (r: bool)
        ensures
            r == (self@ == other@),
    {
        self.0 == other.0
    }
}

impl View for RequirementId {
    type V = Seq<char>;

    closed spec fn view(&self) -> Seq<char> {
        self.0@
    }
}

impl TextId for RequirementId {
    fn text_of(&self) -> (r: &str) {
        self.as_str()
    }

    open spec fn label() -> &'static str {
        "requirement id"
    }

    fn parse_text(value: &str) -> (r: Result<Self, ValidationError>) {
        RequirementId::new(value)
    }

    fn same_text(&self, other: &Self) -> (r: bool) {
        self.0 == other.0
    }
}

impl Clone for RequirementId {
    fn clone(&self) -> (r: Self)
        ensures
            r == *self,
    {
        proof {
            use_type_invariant(self);
        }
        RequirementId(self.0.clone())
    }
}

/// Validated identifier of a managed or observed resource.
#[derive(Debug, PartialEq, Eq, PartialOrd, Ord, Hash)]
pub struct ResourceId(String);

impl ResourceId {
    /// Accepts a non-empty value of at most 256 UTF-8 bytes without control characters.
    pub fn new(value: &str) -> (r: Result<Self, ValidationError>)
        ensures
            match r {
                Ok(id) => valid_token(value@) && id@ == value@,
                Err(e) => token_error("resource id", value@) == Some(e),
            },
    {
        match validate_token("resource id", value) {
            Ok(()) => Ok(ResourceId(owned(value))),
            Err(e) => Err(e),
        }
    }

    #[verifier::type_invariant]
    closed spec fn inv(self) -> bool {
        valid_token(self.0@)
    }

    /// The identifier's text, which always satisfies the token rules.
    pub fn as_str(&self) -> (r: &str)
        ensures
            r@ == self@,
            valid_token(r@),
    {
        proof {
            use_type_invariant(self);
        }
        self.0.as_str()
    }

    /// Whether two identifiers have the same text.
    pub fn same(&self, other: &Self) -> (r: bool)
        ensures
            r == (self@ == other@),
    {
        self.0 == other.0
    }
}

impl View for ResourceId {
    type V = Seq<char>;

    closed spec fn view(&self) -> Seq<char> {
        self.0@
    }
}

impl TextId for ResourceId {
    fn text_of(&self) -> (r: &str) {
        self.as_str()
    }

    open spec fn label() -> &'static str {
        "resource id"
    }

    fn parse_text(value: &str) -> (r: Result<Self, ValidationError>) {
        ResourceId::new(value)
    }

    fn same_text(&self, other: &Self) -> (r: bool) {
        self.0 == other.0
    }
}

impl Clone for ResourceId {
    fn clone(&self) -> (r: Self)
        ensures
            r == *self,
    {
        proof {
            use_type_invariant(self);
        }
        ResourceId(self.0.clone())
    }
}

/// Validated identifier of a capability.
#[derive(Debug, PartialEq, Eq, PartialOrd, Ord, Hash)]
pub struct CapabilityId(String);

impl CapabilityId {
    /// Accepts a non-empty value of at most 256 UTF-8 bytes without control characters.
    pub fn new(value: &str) -> (r: Result<Self, ValidationError>)
        ensures
            match r {
                Ok(id) => valid_token(value@) && id@ == value@,
                Err(e) => token_error("capability id", value@) == Some(e),
            },
    {
        match validate_token("capability id", value) {
            Ok(()) => Ok(CapabilityId(owned(value))),
            Err(e) => Err(e),
        }
    }

    #[verifier::type_invariant]
    closed spec fn inv(self) -> bool {
        valid_token(self.0@)
    }

    /// The identifier's text, which always satisfies the token rules.
    pub fn as_str(&self) -> (r: &str)
        ensures
            r@ == self@,
            valid_token(r@),
    {
        proof {
            use_type_invariant(self);
        }
        self.0.as_str()
    }

    /// Whether two identifiers have the same text.
    pub fn same(&self, other: &Self) -> (r: bool)
        ensures
            r == (self@ == other@),
    {
        self.0 == other.0
    }
}

impl View for CapabilityId {
    type V = Seq<char>;

    closed spec fn view(&self) -> Seq<char> {
        self.0@
    }
}

impl TextId for CapabilityId {
    fn text_of(&self) -> (r: &str) {
        self.as_str()
    }

    open spec fn label() -> &'static str {
        "capability id"
    }

    fn parse_text(value: &str) -> (r: Result<Self, ValidationError>) {
        CapabilityId::new(value)
    }

    fn same_text(&self, other: &Self) -> (r: bool) {
        self.0 == other.0
    }
}

impl Clone for CapabilityId {
    fn clone(&self) -> (r: Self)
        ensures
            r == *self,
    {
        proof {
            use_type_invariant(self);
        }
        CapabilityId(self.0.clone())
    }
}

/// Validated identifier of a provider.
#[derive(Debug, PartialEq, Eq, PartialOrd, Ord, Hash)]
pub struct ProviderId(String);

impl ProviderId {
    /// Accepts a non-empty value of at most 256 UTF-8 bytes without control characters.
    pub fn new(value: &str) -> (r: Result<Self, ValidationError>)
        ensures
            match r {
                Ok(id) => valid_token(value@) && id@ == value@,
                Err(e) => token_error("provider id", value@) == Some(e),
            },
    {
        match validate_token("provider id", value) {
            Ok(()) => Ok(ProviderId(owned(value))),
            Err(e) => Err(e),
        }
    }

    #[verifier::type_invariant]
    closed spec fn inv(self) -> bool {
        valid_token(self.0@)
    }

    /// The identifier's text, which always satisfies the token rules.
    pub fn as_str(&self) -> (r: &str)
        ensures
            r@ == self@,
            valid_token(r@),
    {
        proof {
            use_type_invariant(self);
        }
        self.0.as_str()
    }

    /// Whether two identifiers have the same text.
    pub fn same(&self, other: &Self) -> (r: bool)
        ensures
            r == (self@ == other@),
    {
        self.0 == other.0
    }
}

impl View for ProviderId {
    type V = Seq<char>;

    closed spec fn view(&self) -> Seq<char> {
        self.0@
    }
}

impl TextId for ProviderId {
    fn text_of(&self) -> (r: &str) {
        self.as_str()
    }

    open spec fn label() -> &'static str {
        "provider id"
    }

    fn parse_text(value: &str) -> (r: Result<Self, ValidationError>) {
        ProviderId::new(value)
    }

    fn same_text(&self, other: &Self) -> (r: bool) {
        self.0 == other.0
    }
}

impl Clone for ProviderId {
    fn clone(&self) -> (r: Self)
        ensures
            r == *self,
    {
        proof {
            use_type_invariant(self);
        }
        ProviderId(self.0.clone())
    }
}

/// Validated identifier of a workflow.
#[derive(Debug, PartialEq, Eq, PartialOrd, Ord, Hash)]
pub struct WorkflowId(String);

impl WorkflowId {
    /// Accepts a non-empty value of at most 256 UTF-8 bytes without control characters.
    pub fn new(value: &str) -> (r: Result<Self, ValidationError>)
        ensures
            match r {
                Ok(id) => valid_token(value@) && id@ == value@,
                Err(e) => token_error("workflow id", value@) == Some(e),
            },
    {
        match validate_token("workflow id", value) {
            Ok(()) => Ok(WorkflowId(owned(value))),
            Err(e) => Err(e),
        }
    }

    #[verifier::type_invariant]
    closed spec fn inv(self) -> bool {
        valid_token(self.0@)
    }

    /// The identifier's text, which always satisfies the token rules.
    pub fn as_str(&self) -> (r: &str)
        ensures
            r@ == self@,
            valid_token(r@),
    {
        proof {
            use_type_invariant(self);
        }
        self.0.as_str()
    }

    /// Whether two identifiers have the same text.
    pub fn same(&self, other: &Self) -> (r: bool)
        ensures
            r == (self@ == other@),
    {
        self.0 == other.0
    }
}

impl View for WorkflowId {
    type V = Seq<char>;

    closed spec fn view(&self) -> Seq<char> {
        self.0@
    }
}

impl TextId for WorkflowId {
    fn text_of(&self) -> (r: &str) {
        self.as_str()
    }

    open spec fn label() -> &'static str {
        "workflow id"
    }

    fn parse_text(value: &str) -> (r: Result<Self, ValidationError>) {
        WorkflowId::new(value)
    }

    fn same_text(&self, other: &Self) -> (r: bool) {
        self.0 == other.0
    }
}

impl Clone for WorkflowId {
    fn clone(&self) -> (r: Self)
        ensures
            r == *self,
    {
        proof {
            use_type_invariant(self);
        }
        WorkflowId(self.0.clone())
    }
}

/// Validated identifier of a machine profile.
#[derive(Debug, PartialEq, Eq, PartialOrd, Ord, Hash)]
pub struct ProfileId(String);

impl ProfileId {
    /// Accepts a non-empty value of at most 256 UTF-8 bytes without control characters.
    pub fn new(value: &str) -> (r: Result<Self, ValidationError>)
        ensures
            match r {
                Ok(id) => valid_token(value@) && id@ == value@,
                Err(e) => token_error("profile id", value@) == Some(e),
            },
    {
        match validate_token("profile id", value) {
            Ok(()) => Ok(ProfileId(owned(value))),
            Err(e) => Err(e),
        }
    }

    #[verifier::type_invariant]
    closed spec fn inv(self) -> bool {
        valid_token(self.0@)
    }

    /// The identifier's text, which always satisfies the token rules.
    pub fn as_str(&self) -> (r: &str)
        ensures
            r@ == self@,
            valid_token(r@),
    {
        proof {
            use_type_invariant(self);
        }
        self.0.as_str()
    }

    /// Whether two identifiers have the same text.
    pub fn same(&self, other: &Self) -> (r: bool)
        ensures
            r == (self@ == other@),
    {
        self.0 == other.0
    }
}

impl View for ProfileId {
    type V = Seq<char>;

    closed spec fn view(&self) -> Seq<char> {
        self.0@
    }
}

impl TextId for ProfileId {
    fn text_of(&self) -> (r: &str) {
        self.as_str()
    }

    open spec fn label() -> &'static str {
        "profile id"
    }

    fn parse_text(value: &str) -> (r: Result<Self, ValidationError>) {
        ProfileId::new(value)
    }

    fn same_text(&self, other: &Self) -> (r: bool) {
        self.0 == other.0
    }
}

impl Clone for ProfileId {
    fn clone(&self) -> (r: Self)
        ensures
            r == *self,
    {
        proof {
            use_type_invariant(self);
        }
        ProfileId(self.0.clone())
    }
}

/// Validated identifier of an authenticated principal.
#[derive(Debug, PartialEq, Eq, PartialOrd, Ord, Hash)]
pub struct PrincipalId(String);

impl PrincipalId {
    /// Accepts a non-empty value of at most 256 UTF-8 bytes without control characters.
    pub fn new(value: &str) -> (r: Result<Self, ValidationError>)
        ensures
            match r {
                Ok(id) => valid_token(value@) && id@ == value@,
                Err(e) => token_error("principal id", value@) == Some(e),
            },
    {
        match validate_token("principal id", value) {
            Ok(()) => Ok(PrincipalId(owned(value))),
            Err(e) => Err(e),
        }
    }

    #[verifier::type_invariant]
    closed spec fn inv(self) -> bool {
        valid_token(self.0@)
    }

    /// The identifier's text, which always satisfies the token rules.
    pub fn as_str(&self) -> (r: &str)
        ensures
            r@ == self@,
            valid_token(r@),
    {
        proof {
            use_type_invariant(self);
        }
        self.0.as_str()
    }

    /// Whether two identifiers have the same text.
    pub fn same(&self, other: &Self) -> (r: bool)
        ensures
            r == (self@ == other@),
    {
        self.0 == other.0
    }
}

impl View for PrincipalId {
    type V = Seq<char>;

    closed spec fn view(&self) -> Seq<char> {
        self.0@
    }
}

impl TextId for PrincipalId {
    fn text_of(&self) -> (r: &str) {
        self.as_str()
    }

    open spec fn label() -> &'static str {
        "principal id"
    }

    fn parse_text(value: &str) -> (r: Result<Self, ValidationError>) {
        PrincipalId::new(value)
    }

    fn same_text(&self, other: &Self) -> (r: bool) {
        self.0 == other.0
    }
}

impl Clone for PrincipalId {
    fn clone(&self) -> (r: Self)
        ensures
            r == *self,
    {
        proof {
            use_type_invariant(self);
        }
        PrincipalId(self.0.clone())
    }
}

/// Validated identifier of a policy.
#[derive(Debug, PartialEq, Eq, PartialOrd, Ord, Hash)]
pub struct PolicyId(String);

impl PolicyId {
    /// Accepts a non-empty value of at most 256 UTF-8 bytes without control characters.
    pub fn new(value: &str) -> (r: Result<Self, ValidationError>)
        ensures
            match r {
                Ok(id) => valid_token(value@) && id@ == value@,
                Err(e) => token_error("policy id", value@) == Some(e),
            },
    {
        match validate_token("policy id", value) {
            Ok(()) => Ok(PolicyId(owned(value))),
            Err(e) => Err(e),
        }
    }

    #[verifier::type_invariant]
    closed spec fn inv(self) -> bool {
        valid_token(self.0@)
    }

    /// The identifier's text, which always satisfies the token rules.
    pub fn as_str(&self) -> (r: &str)
        ensures
            r@ == self@,
            valid_token(r@),
    {
        proof {
            use_type_invariant(self);
        }
        self.0.as_str()
    }

    /// Whether two identifiers have the same text.
    pub fn same(&self, other: &Self) -> (r: bool)
        ensures
            r == (self@ == other@),
    {
        self.0 == other.0
    }
}

impl View for PolicyId {
    type V = Seq<char>;

    closed spec fn view(&self) -> Seq<char> {
        self.0@
    }
}

impl TextId for PolicyId {
    fn text_of(&self) -> (r: &str) {
        self.as_str()
    }

    open spec fn label() -> &'static str {
        "policy id"
    }

    fn parse_text(value: &str) -> (r: Result<Self, ValidationError>) {
        PolicyId::new(value)
    }

    fn same_text(&self, other: &Self) -> (r: bool) {
        self.0 == other.0
    }
}

impl Clone for PolicyId {
    fn clone(&self) -> (r: Self)
        ensures
            r == *self,
    {
        proof {
            use_type_invariant(self);
        }
        PolicyId(self.0.clone())
    }
}

/// Validated identifier of a policy revision.
#[derive(Debug, PartialEq, Eq, PartialOrd, Ord, Hash)]
pub struct PolicyRevisionId(String);

impl PolicyRevisionId {
    /// Accepts a non-empty value of at most 256 UTF-8 bytes without control characters.
    pub fn new(value: &str) -> (r: Result<Self, ValidationError>)
        ensures
            match r {
                Ok(id) => valid_token(value@) && id@ == value@,
                Err(e) => token_error("policy revision id", value@) == Some(e),
            },
    {
        match validate_token("policy revision id", value) {
            Ok(()) => Ok(PolicyRevisionId(owned(value))),
            Err(e) => Err(e),
        }
    }

    #[verifier::type_invariant]
    closed spec fn inv(self) -> bool {
        valid_token(self.0@)
    }

    /// The identifier's text, which always satisfies the token rules.
    pub fn as_str(&self) -> (r: &str)
        ensures
            r@ == self@,
            valid_token(r@),
    {
        proof {
            use_type_invariant(self);
        }
        self.0.as_str()
    }

    /// Whether two identifiers have the same text.
    pub fn same(&self, other: &Self) -> (r: bool)
        ensures
            r == (self@ == other@),
    {
        self.0 == other.0
    }
}

impl View for PolicyRevisionId {
    type V = Seq<char>;

    closed spec fn view(&self) -> Seq<char> {
        self.0@
    }
}

impl TextId for PolicyRevisionId {
    fn text_of(&self) -> (r: &str) {
        self.as_str()
    }

    open spec fn label() -> &'static str {
        "policy revision id"
    }

    fn parse_text(value: &str) -> (r: Result<Self, ValidationError>) {
        PolicyRevisionId::new(value)
    }

    fn same_text(&self, other: &Self) -> (r: bool) {
        self.0 == other.0
    }
}

impl Clone for PolicyRevisionId {
    fn clone(&self) -> (r: Self)
        ensures
            r == *self,
    {
        proof {
            use_type_invariant(self);
        }
        PolicyRevisionId(self.0.clone())
    }
}

/// Validated identifier of approval evidence.
#[derive(Debug, PartialEq, Eq, PartialOrd, Ord, Hash)]
pub struct ApprovalEvidenceId(String);

impl ApprovalEvidenceId {
    /// Accepts a non-empty value of at most 256 UTF-8 bytes without control characters.
    pub fn new(value: &str) -> (r: Result<Self, ValidationError>)
        ensures
            match r {
                Ok(id) => valid_token(value@) && id@ == value@,
                Err(e) => token_error("approval evidence id", value@) == Some(e),
            },
    {
        match validate_token("approval evidence id", value) {
            Ok(()) => Ok(ApprovalEvidenceId(owned(value))),
            Err(e) => Err(e),
        }
    }

    #[verifier::type_invariant]
    closed spec fn inv(self) -> bool {
        valid_token(self.0@)
    }

    /// The identifier's text, which always satisfies the token rules.
    pub fn as_str(&self) -> (r: &str)
        ensures
            r@ == self@,
            valid_token(r@),
    {
        proof {
            use_type_invariant(self);
        }
        self.0.as_str()
    }

    /// Whether two identifiers have the same text.
    pub fn same(&self, other: &Self) -> (r: bool)
        ensures
            r == (self@ == other@),
    {
        self.0 == other.0
    }
}

impl View for ApprovalEvidenceId {
    type V = Seq<char>;

    closed spec fn view(&self) -> Seq<char> {
        self.0@
    }
}

impl TextId for ApprovalEvidenceId {
    fn text_of(&self) -> (r: &str) {
        self.as_str()
    }

    open spec fn label() -> &'static str {
        "approval evidence id"
    }

    fn parse_text(value: &str) -> (r: Result<Self, ValidationError>) {
        ApprovalEvidenceId::new(value)
    }

    fn same_text(&self, other: &Self) -> (r: bool) {
        self.0 == other.0
    }
}

impl Clone for ApprovalEvidenceId {
    fn clone(&self) -> (r: Self)
        ensures
            r == *self,
    {
        proof {
            use_type_invariant(self);
        }
        ApprovalEvidenceId(self.0.clone())
    }
}

/// Validated identifier of an approval request.
#[derive(Debug, PartialEq, Eq, PartialOrd, Ord, Hash)]
pub struct ApprovalRequestId(String);

impl ApprovalRequestId {
    /// Accepts a non-empty value of at most 256 UTF-8 bytes without control characters.
    pub fn new(value: &str) -> (r: Result<Self, ValidationError>)
        ensures
            match r {
                Ok(id) => valid_token(value@) && id@ == value@,
                Err(e) => token_error("approval request id", value@) == Some(e),
            },
    {
        match validate_token("approval request id", value) {
            Ok(()) => Ok(ApprovalRequestId(owned(value))),
            Err(e) => Err(e),
        }
    }

    #[verifier::type_invariant]
    closed spec fn inv(self) -> bool {
        valid_token(self.0@)
    }

    /// The identifier's text, which always satisfies the token rules.
    pub fn as_str(&self) -> (r: &str)
        ensures
            r@ == self@,
            valid_token(r@),
    {
        proof {
            use_type_invariant(self);
        }
        self.0.as_str()
    }

    /// Whether two identifiers have the same text.
    pub fn same(&self, other: &Self) -> (r: bool)
        ensures
            r == (self@ == other@),
    {
        self.0 == other.0
    }
}

impl View for ApprovalRequestId {
    type V = Seq<char>;

    closed spec fn view(&self) -> Seq<char> {
        self.0@
    }
}

impl TextId for ApprovalRequestId {
    fn text_of(&self) -> (r: &str) {
        self.as_str()
    }

    open spec fn label() -> &'static str {
        "approval request id"
    }

    fn parse_text(value: &str) -> (r: Result<Self, ValidationError>) {
        ApprovalRequestId::new(value)
    }

    fn same_text(&self, other: &Self) -> (r: bool) {
        self.0 == other.0
    }
}

impl Clone for ApprovalRequestId {
    fn clone(&self) -> (r: Self)
        ensures
            r == *self,
    {
        proof {
            use_type_invariant(self);
        }
        ApprovalRequestId(self.0.clone())
    }
}

/// True when two positions of the sequence hold the same value.
pub open spec fn has_dup<A>(s: Seq<A>) -> bool {
    exists|i: int, j: int| 0 <= i < j < s.len() && s[i] == s[j]
}

/// The texts of a sequence of identifiers.
pub open spec fn texts<T: TextId>(ids: Seq<T>) -> Seq<Seq<char>> {
    ids.map_values(|x: T| x@)
}

/// Whether two identifiers in the slice have the same text.
pub fn has_duplicate_ids<T: TextId>(ids: &[T]) -> (r: bool)
    ensures
        r == has_dup(texts(ids@)),
{
    let n = ids.len();
    let mut i: usize = 0;
    while i < n
        invariant
            n == ids@.len(),
            i <= n,
            forall|a: int, b: int| 0 <= a < i && a < b < n ==> ids@[a]@ != ids@[b]@,
        decreases n - i,
    {
        let mut j: usize = i + 1;
        while j < n
            invariant
                n == ids@.len(),
                i < n,
                i + 1 <= j <= n,
                forall|b: int| i < b < j ==> ids@[i as int]@ != ids@[b]@,
            decreases n - j,
        {
            if ids[i].same_text(&ids[j]) {
                assert(texts(ids@)[i as int] == texts(ids@)[j as int]);
                return true;
            }
            j = j + 1;
        }
        i = i + 1;
    }
    assert forall|a: int, b: int| 0 <= a < b < texts(ids@).len() implies texts(ids@)[a] != texts(
        ids@,
    )[b] by {
        assert(ids@[a]@ != ids@[b]@);
    }
    false
}

} // verus!
