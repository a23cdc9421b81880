//! Agent runtimes: interpreters that propose structured intents and
//! specialists that advise. They hold no executor and apply no effect.
use vstd::prelude::*;

use crate::base::Actor;
use crate::intent::IntentProposal;

verus! {

/// The area a specialist advises on.
#[derive(Clone, Copy, Debug, PartialEq, Eq)]
pub enum SpecialistRole {
    Coordinator,
    Hardware,
    Security,
    Developer,
    Desktop,
    Productivity,
}

/// What an agent knows of the request it serves.
#[derive(Clone, Debug, PartialEq, Eq)]
pub struct AgentContext {
    pub actor: Actor,
    pub offline: bool,
    pub allowed_specialists: Vec<SpecialistRole>,
}

/// Why an agent could not answer.
#[derive(Clone, Debug, PartialEq, Eq)]
pub enum AgentError {
    Unavailable(String),
    InvalidProposal(String),
    ProviderFailure(String),
}

/// Turns a statement into a structured intent proposal.
pub trait IntentInterpreter: Send + Sync {
    fn id(&self) -> &'static str;

    fn propose(&self, context: &AgentContext, statement: &str) -> Result<IntentProposal, AgentError>;
}

/// Advises on a proposal within one role.
pub trait Specialist: Send + Sync {
    fn role(&self) -> SpecialistRole;

    fn advise(&self, context: &AgentContext, proposal: &IntentProposal) -> Result<Vec<String>, AgentError>;
}

/// A boxed interpreter interprets as the interpreter it holds: each answer
/// is one that the held interpreter gives.
impl<T: IntentInterpreter + ?Sized> IntentInterpreter for Box<T> {
    fn id(&self) -> (r: &'static str)
        ensures
            call_ensures(T::id, (&**self,), r),
    {
        (**self).id()
    }

    fn propose(&self, context: &AgentContext, statement: &str) -> (r: Result<IntentProposal, AgentError>)
        ensures
            call_ensures(T::propose, (&**self, context, statement), r),
    {
        (**self).propose(context, statement)
    }
}

/// A boxed specialist advises as the specialist it holds: each answer is
/// one that the held specialist gives.
impl<T: Specialist + ?Sized> Specialist for Box<T> {
    fn role(&self) -> (r: SpecialistRole)
        ensures
            call_ensures(T::role, (&**self,), r),
    {
        (**self).role()
    }

    fn advise(&self, context: &AgentContext, proposal: &IntentProposal) -> (r: Result<Vec<String>, AgentError>)
        ensures
            call_ensures(T::advise, (&**self, context, proposal), r),
    {
        (**self).advise(context, proposal)
    }
}

/// Registered interpreters and specialists, in registration order. The
/// runtime receives no executor handle and cannot apply system effects.
pub struct AgentRuntime<I: IntentInterpreter = Box<dyn IntentInterpreter>, S: Specialist = Box<dyn Specialist>> {
    interpreters: Vec<I>,
    specialists: Vec<S>,
}

impl<I: IntentInterpreter, S: Specialist> AgentRuntime<I, S> {
    /// The registered interpreters, in registration order.
    pub closed spec fn interpreters_spec(self) -> Seq<I> {
        self.interpreters@
    }

    /// The registered specialists, in registration order.
    pub closed spec fn specialists_spec(self) -> Seq<S> {
        self.specialists@
    }

    /// A runtime with nothing registered.
    pub fn new() -> (r: Self)
        ensures
            r.interpreters_spec().len() == 0,
            r.specialists_spec().len() == 0,
    {
        AgentRuntime { interpreters: Vec::new(), specialists: Vec::new() }
    }

    /// Registers one more interpreter, after those already registered.
    pub fn register_interpreter(&mut self, interpreter: I)
        ensures
            final(self).interpreters_spec() == old(self).interpreters_spec().push(interpreter),
            final(self).specialists_spec() == old(self).specialists_spec(),
    {
        self.interpreters.push(interpreter);
    }

    /// Registers one more specialist, after those already registered.
    pub fn register_specialist(&mut self, specialist: S)
        ensures
            final(self).specialists_spec() == old(self).specialists_spec().push(specialist),
            final(self).interpreters_spec() == old(self).interpreters_spec(),
    {
        self.specialists.push(specialist);
    }
}

impl<I: IntentInterpreter, S: Specialist> Default for AgentRuntime<I, S> {
    fn default() -> (r: Self)
        ensures
            r.interpreters_spec().len() == 0,
            r.specialists_spec().len() == 0,
    {
        Self::new()
    }
}

} // verus!
