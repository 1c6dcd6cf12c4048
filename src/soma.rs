use vstd::prelude::*;

use core::marker::PhantomData;

use crate::handle::{Effector, Handle};
use crate::impulse::{Error, Impulse};

verus! {

/// The tag attached to a connection: what kind of relationship it is.
///
/// Roles are opaque to the runtime; it only compares them for equality.
pub trait Synapse: Copy {
    /// Whether two roles are the same role.
    fn same_role(&self, other: &Self) -> (r: bool)
        ensures
            r == (*self == *other),
    ;
}

impl Synapse for u8 {
    fn same_role(&self, other: &Self) -> (r: bool) {
        *self == *other
    }
}

impl Synapse for u32 {
    fn same_role(&self, other: &Self) -> (r: bool) {
        *self == *other
    }
}

impl Synapse for u64 {
    fn same_role(&self, other: &Self) -> (r: bool) {
        *self == *other
    }
}

/// How many peers a role accepts.
#[derive(Debug, Clone, Copy, PartialEq, Eq)]
pub enum Constraint<R> {
    /// Exactly one peer must be bound to the role.
    RequireOne(R),
    /// Any number of peers may be bound to the role.
    Variadic(R),
}

impl<R: Copy> Constraint<R> {
    /// The role the constraint is about.
    pub open spec fn role_of(self) -> R {
        match self {
            Constraint::RequireOne(r) => r,
            Constraint::Variadic(r) => r,
        }
    }

    /// The role the constraint is about.
    pub fn role(&self) -> (r: R)
        ensures
            r == self.role_of(),
    {
        match self {
            Constraint::RequireOne(r) => *r,
            Constraint::Variadic(r) => *r,
        }
    }
}

/// The model of a node's slots on one side (inputs or outputs): each
/// declared constraint with the handles bound to its role, in binding order.
pub type Slots<R> = Seq<(Constraint<R>, Seq<Handle>)>;

/// No two constraints name the same role.
pub open spec fn distinct_roles<R: Copy>(cs: Seq<Constraint<R>>) -> bool {
    forall|i: int, j: int|
        0 <= i < j < cs.len() ==> #[trigger] cs[i].role_of() != #[trigger] cs[j].role_of()
}

/// `e` names the role of the first constraint in `cs` whose role was
/// already declared before it.
pub open spec fn first_duplicate<R: Copy>(cs: Seq<Constraint<R>>, e: Error<R>) -> bool {
    exists|j: int|
        0 <= j < cs.len() && distinct_roles(cs.take(j)) && !distinct_roles(#[trigger] cs.take(j + 1))
            && e == Error::DuplicateRole(cs[j].role_of())
}

/// The role of the first `RequireOne` slot of `s` that does not hold
/// exactly one handle, if any.
pub open spec fn unmet_role<R: Copy>(s: Slots<R>) -> Option<R>
    decreases s.len(),
{
    if s.len() == 0 {
        None
    } else {
        match unmet_role(s.drop_last()) {
            Some(r) => Some(r),
            None => if s.last().0 is RequireOne && s.last().1.len() != 1 {
                Some(s.last().0.role_of())
            } else {
                None
            },
        }
    }
}

/// Whether a node with this effector and these slots may start: no `Init`
/// refuses it, else the first unbound single-peer input, else output.
pub open spec fn start_verdict<R: Copy>(eff: Option<Effector>, ins: Slots<R>, outs: Slots<R>) -> Result<
    (),
    Error<R>,
> {
    if eff is None {
        Err(Error::InitNeverCalled)
    } else {
        match unmet_role(ins) {
            Some(r) => Err(Error::UnmetConstraint(r)),
            None => match unmet_role(outs) {
                Some(r) => Err(Error::UnmetConstraint(r)),
                None => Ok(()),
            },
        }
    }
}

/// The helper's model after it receives `msg` in model `m`
/// (effector, inputs, outputs), and what it answers: `None` when it
/// consumed the impulse, the impulse to hand on, or the error (the model
/// then unchanged).
pub open spec fn soma_step<M, R: Copy>(m: (Option<Effector>, Slots<R>, Slots<R>), msg: Impulse<M, R>) -> (
    (Option<Effector>, Slots<R>, Slots<R>),
    Result<Option<Impulse<M, R>>, Error<R>>,
) {
    match msg {
        Impulse::Init(_, eff) => if m.0 is None {
            ((Some(eff), m.1, m.2), Ok(None))
        } else {
            (m, Err(Error::InitTwice))
        },
        Impulse::AddInput(h, role) => match bind_role(m.1, h, role) {
            Ok(s) => ((m.0, s, m.2), Ok(None)),
            Err(e) => (m, Err(e)),
        },
        Impulse::AddOutput(h, role) => match bind_role(m.2, h, role) {
            Ok(s) => ((m.0, m.1, s), Ok(None)),
            Err(e) => (m, Err(e)),
        },
        Impulse::Start => match start_verdict(m.0, m.1, m.2) {
            Ok(()) => (m, Ok(Some(Impulse::Start))),
            Err(e) => (m, Err(e)),
        },
        _ => (m, Ok(Some(msg))),
    }
}

/// No single-peer slot is unbound exactly when every one holds its handle.
proof fn lemma_unmet_role_none<R: Copy>(s: Slots<R>)
    ensures
        unmet_role(s) is None <==> constraints_met(s),
    decreases s.len(),
{
    if s.len() > 0 {
        let d = s.drop_last();
        lemma_unmet_role_none(d);
        if constraints_met(s) {
            assert forall|k: int| 0 <= k < d.len() && (#[trigger] d[k]).0 is RequireOne implies d[k].1.len() == 1 by {
                assert(d[k] == s[k]);
            }
            assert(s.last() == s[s.len() - 1]);
        } else if unmet_role(s) is None {
            assert forall|k: int| 0 <= k < s.len() && (#[trigger] s[k]).0 is RequireOne implies s[k].1.len() == 1 by {
                if k < d.len() {
                    assert(d[k] == s[k]);
                }
            }
        }
    }
}

/// An unbound slot found among the first slots is the first of them all.
proof fn lemma_unmet_role_prefix<R: Copy>(s: Slots<R>, k: int)
    requires
        0 <= k <= s.len(),
        unmet_role(s.take(k)) is Some,
    ensures
        unmet_role(s) == unmet_role(s.take(k)),
    decreases s.len(),
{
    if k == s.len() {
        assert(s.take(k) =~= s);
    } else {
        assert(s.drop_last().take(k) =~= s.take(k));
        lemma_unmet_role_prefix(s.drop_last(), k);
    }
}

/// A leaf is let through `Start` only when every single-peer role on both
/// sides is bound to exactly one handle, and only after `Init`.
pub proof fn lemma_start_needs_bound_roles<M, R: Copy>(m: (Option<Effector>, Slots<R>, Slots<R>))
    ensures
        soma_step(m, Impulse::<M, R>::Start).1 is Ok <==> (m.0 is Some && constraints_met(m.1)
            && constraints_met(m.2)),
        soma_step(m, Impulse::<M, R>::Start).1 is Ok ==> soma_step(m, Impulse::<M, R>::Start).1
            == Ok::<Option<Impulse<M, R>>, Error<R>>(Some(Impulse::Start)),
{
    lemma_unmet_role_none(m.1);
    lemma_unmet_role_none(m.2);
}

/// Roles are declared once each, and a `RequireOne` slot never holds more
/// than one handle.
pub open spec fn slots_wf<R: Copy>(s: Slots<R>) -> bool {
    &&& forall|i: int, j: int|
        0 <= i < j < s.len() ==> #[trigger] s[i].0.role_of() != #[trigger] s[j].0.role_of()
    &&& forall|i: int| 0 <= i < s.len() && (#[trigger] s[i]).0 is RequireOne ==> s[i].1.len() <= 1
}

/// The slots freshly declared from `cs`: every role bound to nothing.
pub open spec fn empty_slots<R: Copy>(cs: Seq<Constraint<R>>) -> Slots<R> {
    Seq::new(cs.len(), |i: int| (cs[i], Seq::<Handle>::empty()))
}

/// Slot `i` is declared for `role`.
pub open spec fn slot_is<R: Copy>(s: Slots<R>, i: int, role: R) -> bool {
    0 <= i < s.len() && s[i].0.role_of() == role
}

/// Some slot is declared for `role`.
pub open spec fn has_slot<R: Copy>(s: Slots<R>, role: R) -> bool {
    exists|i: int| #[trigger] slot_is(s, i, role)
}

/// Every `RequireOne` slot is bound to exactly one handle.
pub open spec fn constraints_met<R: Copy>(s: Slots<R>) -> bool {
    forall|i: int| 0 <= i < s.len() && (#[trigger] s[i]).0 is RequireOne ==> s[i].1.len() == 1
}

/// The outcome of binding `cell` to `role`: the new slots, or the error.
pub open spec fn bind_role<R: Copy>(s: Slots<R>, cell: Handle, role: R) -> Result<
    Slots<R>,
    Error<R>,
> {
    if has_slot(s, role) {
        let i = choose|i: int| slot_is(s, i, role);
        if s[i].0 is RequireOne && s[i].1.len() != 0 {
            Err(Error::OnlyOneCell(role))
        } else {
            Ok(s.update(i, (s[i].0, s[i].1.push(cell))))
        }
    } else {
        Err(Error::UnexpectedRole(role))
    }
}

/// The handle bound to a `RequireOne` role, or why there is none.
pub open spec fn req_of<R: Copy>(s: Slots<R>, role: R) -> Result<Handle, Error<R>> {
    if exists|i: int| #[trigger] slot_is(s, i, role) && s[i].0 is RequireOne {
        let i = choose|i: int| #[trigger] slot_is(s, i, role) && s[i].0 is RequireOne;
        if s[i].1.len() == 1 {
            Ok(s[i].1[0])
        } else {
            Err(Error::UnmetConstraint(role))
        }
    } else {
        Err(Error::UnexpectedRole(role))
    }
}

/// The handles bound to a `Variadic` role, if it was declared so.
pub open spec fn var_of<R: Copy>(s: Slots<R>, role: R) -> Option<Seq<Handle>> {
    if exists|i: int| #[trigger] slot_is(s, i, role) && s[i].0 is Variadic {
        let i = choose|i: int| #[trigger] slot_is(s, i, role) && s[i].0 is Variadic;
        Some(s[i].1)
    } else {
        None
    }
}

struct Slot<R> {
    constraint: Constraint<R>,
    cells: Vec<Handle>,
}

spec fn slots_view<R: Copy>(v: Seq<Slot<R>>) -> Slots<R> {
    Seq::new(v.len(), |i: int| (v[i].constraint, v[i].cells@))
}

/// Position of the slot declared for `role`, if any.
fn find_role<R: Synapse>(slots: &Vec<Slot<R>>, role: R) -> (r: Option<usize>)
    ensures
        match r {
            Some(i) => slot_is(slots_view(slots@), i as int, role),
            None => !has_slot(slots_view(slots@), role),
        },
{
    let ghost s = slots_view(slots@);
    let mut i: usize = 0;
    while i < slots.len()
        invariant
            s == slots_view(slots@),
            i <= slots.len(),
            forall|k: int| 0 <= k < i ==> !(#[trigger] slot_is(s, k, role)),
        decreases slots.len() - i,
    {
        let found = role.same_role(&slots[i].constraint.role());
        if found {
            return Some(i);
        }
        i += 1;
    }
    None
}

/// With roles declared once each, a role has at most one slot.
proof fn lemma_slot_unique<R: Copy>(s: Slots<R>, i: int, j: int, role: R)
    requires
        slots_wf(s),
        slot_is(s, i, role),
        slot_is(s, j, role),
    ensures
        i == j,
{
    if i < j {
        assert(s[i].0.role_of() != s[j].0.role_of());
    } else if j < i {
        assert(s[j].0.role_of() != s[i].0.role_of());
    }
}


/// The constraint helper of a leaf node: it validates the node's wiring
/// against the constraints the node declared, and keeps the handles bound to
/// each role.
pub struct Soma<M, R> {
    effector: Option<Effector>,
    inputs: Vec<Slot<R>>,
    outputs: Vec<Slot<R>>,
    signal: PhantomData<M>,
}

impl<M, R: Synapse> Soma<M, R> {
    /// The input slots: each declared constraint with its bound handles.
    pub closed spec fn inputs_view(&self) -> Slots<R> {
        slots_view(self.inputs@)
    }

    /// The output slots: each declared constraint with its bound handles.
    pub closed spec fn outputs_view(&self) -> Slots<R> {
        slots_view(self.outputs@)
    }

    /// The effector received at `Init`, if `Init` came.
    pub closed spec fn effector_view(&self) -> Option<Effector> {
        self.effector
    }

    /// Both sides keep their roles distinct and their `RequireOne` slots
    /// at most filled.
    pub open spec fn wf(&self) -> bool {
        slots_wf(self.inputs_view()) && slots_wf(self.outputs_view())
    }

    /// A helper for a node that declared `inputs` and `outputs`, with no
    /// peer bound yet and no `Init` received.
    ///
    /// Fails when a role is declared twice on one side (inputs first).
    pub fn new(inputs: Vec<Constraint<R>>, outputs: Vec<Constraint<R>>) -> (r: Result<Self, Error<R>>)
        ensures
            r is Ok <==> distinct_roles(inputs@) && distinct_roles(outputs@),
            match r {
                Ok(s) => s.wf() && s.inputs_view() == empty_slots(inputs@) && s.outputs_view()
                    == empty_slots(outputs@) && s.effector_view() is None,
                Err(e) => if distinct_roles(inputs@) {
                    first_duplicate(outputs@, e)
                } else {
                    first_duplicate(inputs@, e)
                },
            },
    {
        let inputs = match Self::create_roles(inputs) {
            Ok(v) => v,
            Err(e) => return Err(e),
        };
        let outputs = match Self::create_roles(outputs) {
            Ok(v) => v,
            Err(e) => return Err(e),
        };
        Ok(Soma { effector: None, inputs, outputs, signal: PhantomData })
    }

    fn init(&mut self, effector: Effector) -> (r: Result<(), Error<R>>)
        ensures
            final(self).inputs_view() == old(self).inputs_view(),
            final(self).outputs_view() == old(self).outputs_view(),
            match old(self).effector_view() {
                None => r is Ok && final(self).effector_view() == Some(effector),
                Some(_) => r == Err::<(), Error<R>>(Error::InitTwice) && final(self).effector_view()
                    == old(self).effector_view(),
            },
    {
        if self.effector.is_none() {
            self.effector = Some(effector);
            Ok(())
        } else {
            Err(Error::InitTwice)
        }
    }

    /// Bind `input` to the input role `role`.
    pub fn add_input(&mut self, input: Handle, role: R) -> (r: Result<(), Error<R>>)
        requires
            old(self).wf(),
        ensures
            final(self).wf(),
            final(self).outputs_view() == old(self).outputs_view(),
            final(self).effector_view() == old(self).effector_view(),
            match bind_role(old(self).inputs_view(), input, role) {
                Ok(s) => r is Ok && final(self).inputs_view() == s,
                Err(e) => r == Err::<(), Error<R>>(e) && final(self).inputs_view() == old(self).inputs_view(),
            },
    {
        Self::add_role(&mut self.inputs, input, role)
    }

    /// Bind `output` to the output role `role`.
    pub fn add_output(&mut self, output: Handle, role: R) -> (r: Result<(), Error<R>>)
        requires
            old(self).wf(),
        ensures
            final(self).wf(),
            final(self).inputs_view() == old(self).inputs_view(),
            final(self).effector_view() == old(self).effector_view(),
            match bind_role(old(self).outputs_view(), output, role) {
                Ok(s) => r is Ok && final(self).outputs_view() == s,
                Err(e) => r == Err::<(), Error<R>>(e) && final(self).outputs_view() == old(self).outputs_view(),
            },
    {
        Self::add_role(&mut self.outputs, output, role)
    }

    /// Check that the node may start: `Init` came and every `RequireOne`
    /// slot, inputs then outputs, holds its handle.
    pub fn verify(&self) -> (r: Result<(), Error<R>>)
        ensures
            r is Ok <==> self.effector_view() is Some && constraints_met(self.inputs_view())
                && constraints_met(self.outputs_view()),
            r == start_verdict(self.effector_view(), self.inputs_view(), self.outputs_view()),
    {
        if self.effector.is_none() {
            return Err(Error::InitNeverCalled);
        }
        match Self::verify_constraints(&self.inputs) {
            Ok(()) => {},
            Err(e) => return Err(e),
        }
        Self::verify_constraints(&self.outputs)
    }

    /// Everything the helper holds: effector, input slots, output slots.
    pub open spec fn model(&self) -> (Option<Effector>, Slots<R>, Slots<R>) {
        (self.effector_view(), self.inputs_view(), self.outputs_view())
    }

    /// Feed an impulse through the helper.
    ///
    /// `Init`, `AddInput` and `AddOutput` are consumed (`None`); `Start` is
    /// verified and handed back so the node sees the transition; any other
    /// impulse is handed back unchanged. On error nothing changes.
    pub fn update(&mut self, msg: Impulse<M, R>) -> (r: Result<Option<Impulse<M, R>>, Error<R>>)
        requires
            old(self).wf(),
        ensures
            final(self).wf(),
            final(self).model() == soma_step(old(self).model(), msg).0,
            r == soma_step(old(self).model(), msg).1,
            // a node that is let through `Start` has every single-peer role bound
            msg is Start && r is Ok ==> constraints_met(final(self).inputs_view()) && constraints_met(
                final(self).outputs_view(),
            ),
    {
        match msg {
            Impulse::Init(_, effector) => {
                match self.init(effector) {
                    Ok(()) => Ok(None),
                    Err(e) => Err(e),
                }
            },
            Impulse::AddInput(input, role) => {
                match self.add_input(input, role) {
                    Ok(()) => Ok(None),
                    Err(e) => Err(e),
                }
            },
            Impulse::AddOutput(output, role) => {
                match self.add_output(output, role) {
                    Ok(()) => Ok(None),
                    Err(e) => Err(e),
                }
            },
            Impulse::Start => {
                match self.verify() {
                    Ok(()) => Ok(Some(Impulse::Start)),
                    Err(e) => Err(e),
                }
            },
            other => Ok(Some(other)),
        }
    }

    /// The effector received at `Init`.
    pub fn effector(&self) -> (r: Result<&Effector, Error<R>>)
        ensures
            match self.effector_view() {
                Some(e) => r matches Ok(x) && *x == e,
                None => r matches Err(x) && x == Error::<R>::InitNeverCalled,
            },
    {
        match &self.effector {
            Some(e) => Ok(e),
            None => Err(Error::InitNeverCalled),
        }
    }

    /// The payload that sends `msg` to the peer bound to the input role
    /// `dest`, stamped with this node's identity.
    pub fn send_req_input(&self, dest: R, msg: M) -> (r: Result<Impulse<M, R>, Error<R>>)
        requires
            self.wf(),
        ensures
            match req_of(self.inputs_view(), dest) {
                Ok(h) => match self.effector_view() {
                    Some(e) => r == Ok::<Impulse<M, R>, Error<R>>(Impulse::Payload(e.this_soma, h, msg)),
                    None => r == Err::<Impulse<M, R>, Error<R>>(Error::InitNeverCalled),
                },
                Err(e) => r == Err::<Impulse<M, R>, Error<R>>(e),
            },
    {
        let req_input = match self.req_input(dest) {
            Ok(h) => h,
            Err(e) => return Err(e),
        };
        match self.effector() {
            Ok(e) => Ok(e.stamp(req_input, msg)),
            Err(e) => Err(e),
        }
    }

    /// The payload that sends `msg` to the peer bound to the output role
    /// `dest`, stamped with this node's identity.
    pub fn send_req_output(&self, dest: R, msg: M) -> (r: Result<Impulse<M, R>, Error<R>>)
        requires
            self.wf(),
        ensures
            match req_of(self.outputs_view(), dest) {
                Ok(h) => match self.effector_view() {
                    Some(e) => r == Ok::<Impulse<M, R>, Error<R>>(Impulse::Payload(e.this_soma, h, msg)),
                    None => r == Err::<Impulse<M, R>, Error<R>>(Error::InitNeverCalled),
                },
                Err(e) => r == Err::<Impulse<M, R>, Error<R>>(e),
            },
    {
        let req_output = match self.req_output(dest) {
            Ok(h) => h,
            Err(e) => return Err(e),
        };
        match self.effector() {
            Ok(e) => Ok(e.stamp(req_output, msg)),
            Err(e) => Err(e),
        }
    }

    /// The handle bound to the `RequireOne` input role `role`.
    pub fn req_input(&self, role: R) -> (r: Result<Handle, Error<R>>)
        requires
            self.wf(),
        ensures
            r == req_of(self.inputs_view(), role),
    {
        Self::get_req(&self.inputs, role)
    }

    /// The handles bound to the `Variadic` input role `role`, in binding
    /// order.
    pub fn var_input(&self, role: R) -> (r: Result<&Vec<Handle>, Error<R>>)
        requires
            self.wf(),
        ensures
            match r {
                Ok(v) => var_of(self.inputs_view(), role) == Some(v@),
                Err(e) => var_of(self.inputs_view(), role) is None && e == Error::UnexpectedRole(role),
            },
    {
        Self::get_var(&self.inputs, role)
    }

    /// The handle bound to the `RequireOne` output role `role`.
    pub fn req_output(&self, role: R) -> (r: Result<Handle, Error<R>>)
        requires
            self.wf(),
        ensures
            r == req_of(self.outputs_view(), role),
    {
        Self::get_req(&self.outputs, role)
    }

    /// The handles bound to the `Variadic` output role `role`, in binding
    /// order.
    pub fn var_output(&self, role: R) -> (r: Result<&Vec<Handle>, Error<R>>)
        requires
            self.wf(),
        ensures
            match r {
                Ok(v) => var_of(self.outputs_view(), role) == Some(v@),
                Err(e) => var_of(self.outputs_view(), role) is None && e == Error::UnexpectedRole(role),
            },
    {
        Self::get_var(&self.outputs, role)
    }

    fn create_roles(constraints: Vec<Constraint<R>>) -> (r: Result<Vec<Slot<R>>, Error<R>>)
        ensures
            r is Ok <==> distinct_roles(constraints@),
            match r {
                Ok(v) => slots_view(v@) == empty_slots(constraints@) && slots_wf(slots_view(v@)),
                Err(e) => first_duplicate(constraints@, e),
            },
    {
        let mut map: Vec<Slot<R>> = Vec::new();
        let mut j: usize = 0;
        while j < constraints.len()
            invariant
                j <= constraints@.len(),
                distinct_roles(constraints@.take(j as int)),
                slots_view(map@) == empty_slots(constraints@.take(j as int)),
            decreases constraints.len() - j,
        {
            let c = constraints[j];
            let role = c.role();
            let found = find_role(&map, role);
            proof {
                assert(constraints@.take(j + 1).drop_last() == constraints@.take(j as int));
            }
            if found.is_some() {
                let ghost i = found->Some_0 as int;
                proof {
                    let t = constraints@.take(j + 1);
                    assert(slots_view(map@)[i].0 == t[i]);
                    assert(t[i].role_of() == t[j as int].role_of());
                }
                return Err(Error::DuplicateRole(role));
            }
            let ghost old_map = slots_view(map@);
            let ghost old_vec = map@;
            map.push(Slot { constraint: c, cells: Vec::new() });
            proof {
                let t = constraints@.take(j + 1);
                assert(old_map.len() == j);
                assert(old_vec.len() == j);
                assert(map@.len() == j + 1);
                assert forall|a: int, b: int| 0 <= a < b < t.len() implies #[trigger] t[a].role_of()
                    != #[trigger] t[b].role_of() by {
                    if b == j {
                        assert(old_map[a].0 == t[a]);
                        assert(!slot_is(old_map, a, role));
                    } else {
                        assert(t[a] == constraints@.take(j as int)[a]);
                        assert(t[b] == constraints@.take(j as int)[b]);
                    }
                }
                assert forall|k: int| 0 <= k < t.len() implies #[trigger] slots_view(map@)[k]
                    == empty_slots(t)[k] by {
                    if k < j {
                        assert(map@[k] == old_vec[k]);
                        assert(old_map[k] == empty_slots(constraints@.take(j as int))[k]);
                    }
                }
                assert(slots_view(map@) =~= empty_slots(t));
            }
            j += 1;
        }
        proof {
            assert(constraints@.take(j as int) =~= constraints@);
        }
        Ok(map)
    }

    fn add_role(map: &mut Vec<Slot<R>>, cell: Handle, role: R) -> (r: Result<(), Error<R>>)
        requires
            slots_wf(slots_view(old(map)@)),
        ensures
            match bind_role(slots_view(old(map)@), cell, role) {
                Ok(s) => r is Ok && slots_view(final(map)@) == s,
                Err(e) => r == Err::<(), Error<R>>(e) && final(map)@ == old(map)@,
            },
            slots_wf(slots_view(final(map)@)),
    {
        let ghost s = slots_view(map@);
        match find_role(map, role) {
            None => Err(Error::UnexpectedRole(role)),
            Some(i) => {
                proof {
                    let k = choose|k: int| slot_is(s, k, role);
                    lemma_slot_unique(s, i as int, k, role);
                }
                match map[i].constraint {
                    Constraint::RequireOne(_) => {
                        if map[i].cells.len() != 0 {
                            return Err(Error::OnlyOneCell(role));
                        }
                    },
                    Constraint::Variadic(_) => {},
                }
                map[i].cells.push(cell);
                proof {
                    assert(slots_view(map@) =~= s.update(i as int, (s[i as int].0, s[i as int].1.push(cell))));
                    let n = slots_view(map@);
                    assert forall|a: int, b: int| 0 <= a < b < n.len() implies #[trigger] n[a].0.role_of()
                        != #[trigger] n[b].0.role_of() by {
                        assert(n[a].0 == s[a].0 && n[b].0 == s[b].0);
                    }
                    assert forall|a: int| 0 <= a < n.len() && (#[trigger] n[a]).0 is RequireOne implies n[a].1.len() <= 1 by {
                        if a != i {
                            assert(n[a] == s[a]);
                        }
                    }
                }
                Ok(())
            },
        }
    }

    fn verify_constraints(map: &Vec<Slot<R>>) -> (r: Result<(), Error<R>>)
        ensures
            r is Ok <==> constraints_met(slots_view(map@)),
            r == match unmet_role(slots_view(map@)) {
                Some(role) => Err::<(), Error<R>>(Error::UnmetConstraint(role)),
                None => Ok(()),
            },
    {
        let ghost s = slots_view(map@);
        let mut i: usize = 0;
        while i < map.len()
            invariant
                s == slots_view(map@),
                i <= map@.len(),
                constraints_met(s.take(i as int)),
            decreases map.len() - i,
        {
            let ghost t = s.take(i + 1);
            match map[i].constraint {
                Constraint::RequireOne(role) => {
                    if map[i].cells.len() != 1 {
                        proof {
                            assert(t[i as int] == s[i as int]);
                            assert(!constraints_met(t));
                            lemma_unmet_role_none(s.take(i as int));
                            assert(t.drop_last() =~= s.take(i as int));
                            assert(t.last() == s[i as int]);
                            lemma_unmet_role_prefix(s, i + 1);
                            assert(!constraints_met(s)) by {
                                assert(s[i as int].0 is RequireOne);
                            }
                        }
                        return Err(Error::UnmetConstraint(role));
                    }
                },
                Constraint::Variadic(_) => {},
            }
            proof {
                assert forall|k: int| 0 <= k < t.len() && (#[trigger] t[k]).0 is RequireOne implies t[k].1.len() == 1 by {
                    if k < i {
                        assert(t[k] == s.take(i as int)[k]);
                    }
                }
            }
            i += 1;
        }
        proof {
            assert(s.take(i as int) =~= s);
            lemma_unmet_role_none(s);
        }
        Ok(())
    }

    fn get_req(map: &Vec<Slot<R>>, role: R) -> (r: Result<Handle, Error<R>>)
        requires
            slots_wf(slots_view(map@)),
        ensures
            r == req_of(slots_view(map@), role),
    {
        let ghost s = slots_view(map@);
        match find_role(map, role) {
            Some(i) => {
                proof {
                    if exists|k: int| #[trigger] slot_is(s, k, role) && s[k].0 is RequireOne {
                        let k = choose|k: int| #[trigger] slot_is(s, k, role) && s[k].0 is RequireOne;
                        lemma_slot_unique(s, i as int, k, role);
                    }
                }
                match map[i].constraint {
                    Constraint::RequireOne(_) => {
                        if map[i].cells.len() == 1 {
                            Ok(map[i].cells[0])
                        } else {
                            Err(Error::UnmetConstraint(role))
                        }
                    },
                    Constraint::Variadic(_) => Err(Error::UnexpectedRole(role)),
                }
            },
            None => Err(Error::UnexpectedRole(role)),
        }
    }

    fn get_var(map: &Vec<Slot<R>>, role: R) -> (r: Result<&Vec<Handle>, Error<R>>)
        requires
            slots_wf(slots_view(map@)),
        ensures
            match r {
                Ok(v) => var_of(slots_view(map@), role) == Some(v@),
                Err(e) => var_of(slots_view(map@), role) is None && e == Error::UnexpectedRole(role),
            },
    {
        let ghost s = slots_view(map@);
        match find_role(map, role) {
            Some(i) => {
                proof {
                    if exists|k: int| #[trigger] slot_is(s, k, role) && s[k].0 is Variadic {
                        let k = choose|k: int| #[trigger] slot_is(s, k, role) && s[k].0 is Variadic;
                        lemma_slot_unique(s, i as int, k, role);
                    }
                }
                match map[i].constraint {
                    Constraint::Variadic(_) => Ok(&map[i].cells),
                    Constraint::RequireOne(_) => Err(Error::UnexpectedRole(role)),
                }
            },
            None => Err(Error::UnexpectedRole(role)),
        }
    }
}

/// Once a `RequireOne` role holds its handle, binding any handle to it
/// again fails and leaves the slots as they were.
pub proof fn lemma_second_binding_fails<R: Copy>(s: Slots<R>, i: int, role: R, cell: Handle)
    requires
        slots_wf(s),
        slot_is(s, i, role),
        s[i].0 is RequireOne,
        s[i].1.len() == 1,
    ensures
        bind_role(s, cell, role) == Err::<Slots<R>, Error<R>>(Error::OnlyOneCell(role)),
{
    let k = choose|k: int| slot_is(s, k, role);
    lemma_slot_unique(s, i, k, role);
}

/// The user-written part of a leaf node: it sees each impulse that the
/// helper did not consume, together with the helper itself.
pub trait Nucleus<M, R: Synapse>: Sized {
    /// Handle one impulse; return the next state or a failure.
    fn update(self, soma: &Soma<M, R>, msg: Impulse<M, R>) -> Result<Self, Error<R>>;
}

/// A leaf node: a nucleus wrapped with the constraint helper, so that the
/// helper always sees the impulses first.
pub struct Eukaryote<M, R, N> {
    soma: Soma<M, R>,
    nucleus: N,
}

impl<M, R: Synapse, N: Nucleus<M, R>> Eukaryote<M, R, N> {
    /// The constraint helper of this node.
    pub closed spec fn soma_view(&self) -> Soma<M, R> {
        self.soma
    }

    /// The user-written part of this node.
    pub closed spec fn nucleus_view(&self) -> N {
        self.nucleus
    }

    /// Wrap `nucleus` with a helper that declared `inputs` and `outputs`.
    pub fn new(nucleus: N, inputs: Vec<Constraint<R>>, outputs: Vec<Constraint<R>>) -> (r: Result<
        Self,
        Error<R>,
    >)
        ensures
            r is Ok <==> distinct_roles(inputs@) && distinct_roles(outputs@),
            match r {
                Ok(c) => c.soma_view().wf() && c.soma_view().model() == (
                    None::<Effector>,
                    empty_slots(inputs@),
                    empty_slots(outputs@),
                ) && c.nucleus_view() == nucleus,
                Err(e) => if distinct_roles(inputs@) {
                    first_duplicate(outputs@, e)
                } else {
                    first_duplicate(inputs@, e)
                },
            },
    {
        match Soma::new(inputs, outputs) {
            Ok(soma) => Ok(Eukaryote { soma, nucleus }),
            Err(e) => Err(e),
        }
    }

    /// The constraint helper of this node.
    pub fn soma(&self) -> (r: &Soma<M, R>)
        ensures
            *r == self.soma_view(),
    {
        &self.soma
    }

    /// Feed an impulse to the node: the helper first, then the nucleus when
    /// the helper hands the impulse on.
    pub fn update(self, msg: Impulse<M, R>) -> (r: Result<Self, Error<R>>)
        requires
            self.soma_view().wf(),
        ensures
            r matches Ok(c) ==> c.soma_view().wf(),
            // the nucleus never sees `Start` unless every single-peer role is bound
            msg is Start && r is Ok ==> constraints_met(r->Ok_0.soma_view().inputs_view())
                && constraints_met(r->Ok_0.soma_view().outputs_view()),
            msg is Start && self.soma_view().effector_view() is None ==> (r matches Err(e) && e
                == Error::<R>::InitNeverCalled),
            // the helper decides first; the nucleus only sees what it hands on
            match soma_step(self.soma_view().model(), msg).1 {
                Err(e) => r matches Err(x) && x == e,
                Ok(None) => r matches Ok(c) && c.soma_view().model() == soma_step(
                    self.soma_view().model(),
                    msg,
                ).0 && c.nucleus_view() == self.nucleus_view(),
                Ok(Some(_)) => r matches Ok(c) ==> c.soma_view().model() == soma_step(
                    self.soma_view().model(),
                    msg,
                ).0,
            },
    {
        let mut soma = self.soma;
        let nucleus = self.nucleus;
        match soma.update(msg) {
            Ok(Some(msg)) => {
                match nucleus.update(&soma, msg) {
                    Ok(nucleus) => Ok(Eukaryote { soma, nucleus }),
                    Err(e) => Err(e),
                }
            },
            Ok(None) => Ok(Eukaryote { soma, nucleus }),
            Err(e) => Err(e),
        }
    }
}

} // verus!
