use vstd::prelude::*;

use vstd::std_specs::convert::FromSpec;

use crate::handle::{Effector, Handle};

verus! {

/// What can go wrong in the runtime.
#[derive(Debug, PartialEq, Eq)]
pub enum Error<R> {
    /// A role was declared more than once at construction.
    DuplicateRole(R),
    /// A second handle was bound to a role that takes exactly one.
    OnlyOneCell(R),
    /// A role was named that the node never declared (or declared with the
    /// other kind of constraint).
    UnexpectedRole(R),
    /// A role that takes exactly one handle has none.
    UnmetConstraint(R),
    /// `Init` was delivered twice.
    InitTwice,
    /// `Start` arrived, or a send was attempted, before `Init`.
    InitNeverCalled,
    /// An impulse was addressed to a handle that is not a local child.
    NodeNotFound(Handle),
    /// A child was added under a handle that is already taken.
    DuplicateHandle(Handle),
    /// A child was added after the composite received `Init`.
    AddAfterInit,
    /// An impulse variant that cannot legally appear where it arrived.
    ProtocolViolation,
    /// A failure reported by a node's own update.
    Failed(String),
    /// The error of a child node, lifted into its enclosing scope.
    Node(Box<Error<R>>),
}

/// The tagged traffic carried over every channel of the runtime.
///
/// `M` is the user payload (a signal), `R` the role (synapse) attached to a
/// connection.
#[derive(Debug, PartialEq, Eq)]
pub enum Impulse<M, R> {
    /// One-shot: the parent's identity and the node's own effector.
    Init(Option<Handle>, Effector),
    /// A peer bound to one of the node's input roles.
    AddInput(Handle, R),
    /// A peer bound to one of the node's output roles.
    AddOutput(Handle, R),
    /// Transition to running.
    Start,
    /// Terminal: drain and exit.
    Stop,
    /// A message in flight: source, destination, payload.
    Payload(Handle, Handle, M),
    /// A message as delivered to its recipient: source, payload.
    Signal(Handle, M),
    /// Diagnostic trace request.
    Probe(Handle),
    /// Terminal failure notice, propagated upward.
    Failure(Error<R>),
}

impl Effector {
    /// The payload impulse this effector emits for `msg` addressed to `dest`.
    pub fn stamp<M, R>(&self, dest: Handle, msg: M) -> (r: Impulse<M, R>)
        ensures
            r == Impulse::<M, R>::Payload(self.this_soma, dest, msg),
    {
        Impulse::Payload(self.this_soma, dest, msg)
    }
}

/// An error with each role converted through `S::from`.
pub open spec fn error_of<R, S: From<R>>(e: Error<R>) -> Error<S>
    decreases e,
{
    match e {
        Error::DuplicateRole(r) => Error::DuplicateRole(S::from_spec(r)),
        Error::OnlyOneCell(r) => Error::OnlyOneCell(S::from_spec(r)),
        Error::UnexpectedRole(r) => Error::UnexpectedRole(S::from_spec(r)),
        Error::UnmetConstraint(r) => Error::UnmetConstraint(S::from_spec(r)),
        Error::InitTwice => Error::InitTwice,
        Error::InitNeverCalled => Error::InitNeverCalled,
        Error::NodeNotFound(h) => Error::NodeNotFound(h),
        Error::DuplicateHandle(h) => Error::DuplicateHandle(h),
        Error::AddAfterInit => Error::AddAfterInit,
        Error::ProtocolViolation => Error::ProtocolViolation,
        Error::Failed(m) => Error::Failed(m),
        Error::Node(inner) => Error::Node(Box::new(error_of::<R, S>(*inner))),
    }
}

/// An impulse of another protocol: payloads converted through `N::from`,
/// roles through `S::from`, handles and effectors as they are.
pub open spec fn impulse_of<M, R, N: From<M>, S: From<R>>(imp: Impulse<M, R>) -> Impulse<N, S> {
    match imp {
        Impulse::Init(p, e) => Impulse::Init(p, e),
        Impulse::AddInput(h, r) => Impulse::AddInput(h, S::from_spec(r)),
        Impulse::AddOutput(h, r) => Impulse::AddOutput(h, S::from_spec(r)),
        Impulse::Start => Impulse::Start,
        Impulse::Stop => Impulse::Stop,
        Impulse::Payload(s, d, m) => Impulse::Payload(s, d, N::from_spec(m)),
        Impulse::Signal(s, m) => Impulse::Signal(s, N::from_spec(m)),
        Impulse::Probe(h) => Impulse::Probe(h),
        Impulse::Failure(e) => Impulse::Failure(error_of::<R, S>(e)),
    }
}

/// Convert every role of an error through `S::from`.
pub fn convert_error<R, S: From<R>>(e: Error<R>) -> (r: Error<S>)
    ensures
        S::obeys_from_spec() ==> r == error_of::<R, S>(e),
    decreases e,
{
    match e {
        Error::DuplicateRole(r) => Error::DuplicateRole(S::from(r)),
        Error::OnlyOneCell(r) => Error::OnlyOneCell(S::from(r)),
        Error::UnexpectedRole(r) => Error::UnexpectedRole(S::from(r)),
        Error::UnmetConstraint(r) => Error::UnmetConstraint(S::from(r)),
        Error::InitTwice => Error::InitTwice,
        Error::InitNeverCalled => Error::InitNeverCalled,
        Error::NodeNotFound(h) => Error::NodeNotFound(h),
        Error::DuplicateHandle(h) => Error::DuplicateHandle(h),
        Error::AddAfterInit => Error::AddAfterInit,
        Error::ProtocolViolation => Error::ProtocolViolation,
        Error::Failed(m) => Error::Failed(m),
        Error::Node(inner) => Error::Node(Box::new(convert_error::<R, S>(*inner))),
    }
}

impl<M, R> Impulse<M, R> {
    /// The same impulse in another protocol: payloads and roles converted,
    /// handles unchanged.
    pub fn convert_protocol<N: From<M>, S: From<R>>(self) -> (r: Impulse<N, S>)
        ensures
            N::obeys_from_spec() && S::obeys_from_spec() ==> r == impulse_of::<M, R, N, S>(self),
    {
        match self {
            Impulse::Init(p, e) => Impulse::Init(p, e),
            Impulse::AddInput(h, r) => Impulse::AddInput(h, S::from(r)),
            Impulse::AddOutput(h, r) => Impulse::AddOutput(h, S::from(r)),
            Impulse::Start => Impulse::Start,
            Impulse::Stop => Impulse::Stop,
            Impulse::Payload(s, d, m) => Impulse::Payload(s, d, N::from(m)),
            Impulse::Signal(s, m) => Impulse::Signal(s, N::from(m)),
            Impulse::Probe(h) => Impulse::Probe(h),
            Impulse::Failure(e) => Impulse::Failure(convert_error::<R, S>(e)),
        }
    }
}

/// Converting an error's roles and converting them back gives the error
/// again, when each role conversion is undone by its inverse.
pub proof fn lemma_error_round_trip<R: From<S>, S: From<R>>(e: Error<R>)
    requires
        forall|r: R| #[trigger] R::from_spec(S::from_spec(r)) == r,
    ensures
        error_of::<S, R>(error_of::<R, S>(e)) == e,
    decreases e,
{
    if let Error::Node(inner) = e {
        lemma_error_round_trip::<R, S>(*inner);
    }
}

/// Converting an impulse to another protocol and back gives the impulse
/// again, when each payload and role conversion is undone by its inverse.
pub proof fn lemma_convert_round_trip<M: From<N>, R: From<S>, N: From<M>, S: From<R>>(imp: Impulse<M, R>)
    requires
        forall|m: M| #[trigger] M::from_spec(N::from_spec(m)) == m,
        forall|r: R| #[trigger] R::from_spec(S::from_spec(r)) == r,
    ensures
        impulse_of::<N, S, M, R>(impulse_of::<M, R, N, S>(imp)) == imp,
{
    if let Impulse::Failure(e) = imp {
        lemma_error_round_trip::<R, S>(e);
    }
}

} // verus!
