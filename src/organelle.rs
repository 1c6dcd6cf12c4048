use vstd::prelude::*;

use crate::handle::{Effector, Handle};
use crate::impulse::{Error, Impulse};

verus! {

/// Where a composite stands in its lifecycle.
#[derive(Debug, Clone, Copy, PartialEq, Eq, Structural)]
pub enum Phase {
    /// Children and connections are being added; no `Init` yet.
    Setup,
    /// `Init` came: children are initialized and wired, not started.
    Initialized,
    /// `Start` came: the network runs.
    Started,
}

/// Everything a composite holds, as mathematical values.
pub struct OrganelleModel<R> {
    /// The enclosing scope's handle, as received at `Init`.
    pub parent: Option<Handle>,
    /// The identity the enclosing scope gave this composite, from `Init` on.
    pub this: Option<Handle>,
    /// The child that is the composite's external face.
    pub main: Handle,
    /// The children, in the order they were added.
    pub nodes: Seq<Handle>,
    /// Pending connections `(input, output, role)`, in the order made.
    pub connections: Seq<(Handle, Handle, R)>,
    pub phase: Phase,
}

/// What the routing task does with one impulse from its queue.
#[derive(Debug)]
pub enum Route<M, R> {
    /// Hand the impulse to the local child with this handle.
    Deliver(Handle, Impulse<M, R>),
    /// Send the impulse to the enclosing scope.
    Upward(Impulse<M, R>),
    /// Print the composite's identity: a diagnostic only.
    Probe,
}

/// What the outermost composite does after one impulse of its queue.
#[derive(Debug)]
pub enum Step<M, R> {
    /// Go on, after handing each impulse to the child with its handle.
    Continue(Vec<(Handle, Impulse<M, R>)>),
    /// A probe addressed to the main child: print a diagnostic and go on.
    Probe,
    /// `Stop` came: the run ends cleanly.
    Finished,
}

/// The `Init` each child receives, in the order of `nodes`: the composite
/// as parent and an effector bearing the child's own handle.
pub open spec fn init_wave<M, R>(nodes: Seq<Handle>, org: Handle) -> Seq<(Handle, Impulse<M, R>)> {
    Seq::new(
        nodes.len(),
        |i: int| (nodes[i], Impulse::Init(Some(org), Effector { this_soma: nodes[i] })),
    )
}

/// What one connection `(input, output, role)` announces to the local
/// children: `AddOutput(output, role)` to `input`, then
/// `AddInput(input, role)` to `output`, each only where that end is a
/// local child. An end outside the composite is told nothing here.
pub open spec fn wiring_of<M, R>(nodes: Seq<Handle>, c: (Handle, Handle, R)) -> Seq<(Handle, Impulse<M, R>)> {
    let to_input = if nodes.contains(c.0) {
        seq![(c.0, Impulse::AddOutput(c.1, c.2))]
    } else {
        Seq::empty()
    };
    let to_output = if nodes.contains(c.1) {
        seq![(c.1, Impulse::AddInput(c.0, c.2))]
    } else {
        Seq::empty()
    };
    to_input + to_output
}

/// The wiring impulses of the connections, in the order they were made.
pub open spec fn wiring_wave<M, R>(nodes: Seq<Handle>, conns: Seq<(Handle, Handle, R)>) -> Seq<
    (Handle, Impulse<M, R>),
>
    decreases conns.len(),
{
    if conns.len() == 0 {
        Seq::empty()
    } else {
        wiring_wave(nodes, conns.drop_last()) + wiring_of(nodes, conns.last())
    }
}

/// `Start` to each child, in the order of `nodes`.
pub open spec fn start_wave<M, R>(nodes: Seq<Handle>) -> Seq<(Handle, Impulse<M, R>)> {
    Seq::new(nodes.len(), |i: int| (nodes[i], Impulse::Start))
}

/// The source a recipient observes for a payload from `src` to `dest`: the
/// main child presents as the composite to anything outside it.
pub open spec fn actual_src(main: Handle, org: Handle, nodes: Seq<Handle>, src: Handle, dest: Handle) -> Handle {
    if src == main && !(dest == org || nodes.contains(dest)) {
        org
    } else {
        src
    }
}

/// What the routing task of an initialized composite `org` does with `imp`.
pub open spec fn route_of<M, R>(main: Handle, org: Handle, nodes: Seq<Handle>, imp: Impulse<M, R>) -> Result<
    Route<M, R>,
    Error<R>,
> {
    match imp {
        Impulse::Payload(src, dest, msg) => {
            let s = actual_src(main, org, nodes, src, dest);
            if dest == org {
                Ok(Route::Deliver(main, Impulse::Signal(s, msg)))
            } else if nodes.contains(dest) {
                Ok(Route::Deliver(dest, Impulse::Signal(s, msg)))
            } else {
                Ok(Route::Upward(Impulse::Payload(s, dest, msg)))
            }
        },
        Impulse::Probe(_) => Ok(Route::Probe),
        Impulse::Stop => Ok(Route::Upward(Impulse::Stop)),
        Impulse::Failure(e) => Ok(Route::Upward(Impulse::Failure(e))),
        _ => Err(Error::ProtocolViolation),
    }
}

/// The next state of a composite in state `m` that receives `msg`, and the
/// impulses it hands to its children (or the error, the state unchanged).
pub open spec fn step_of<M, R>(m: OrganelleModel<R>, msg: Impulse<M, R>) -> (
    OrganelleModel<R>,
    Result<Seq<(Handle, Impulse<M, R>)>, Error<R>>,
) {
    match msg {
        Impulse::Init(parent, eff) => if m.phase != Phase::Setup {
            (m, Err(Error::InitTwice))
        } else {
            (
                OrganelleModel { parent, this: Some(eff.this_soma), phase: Phase::Initialized, ..m },
                Ok(init_wave(m.nodes, eff.this_soma) + wiring_wave(m.nodes, m.connections)),
            )
        },
        Impulse::AddInput(h, role) => if m.phase == Phase::Initialized {
            (m, Ok(seq![(m.main, Impulse::AddInput(h, role))]))
        } else {
            (m, Err(Error::ProtocolViolation))
        },
        Impulse::AddOutput(h, role) => if m.phase == Phase::Initialized {
            (m, Ok(seq![(m.main, Impulse::AddOutput(h, role))]))
        } else {
            (m, Err(Error::ProtocolViolation))
        },
        Impulse::Start => if m.phase == Phase::Setup {
            (m, Err(Error::InitNeverCalled))
        } else if m.phase == Phase::Started {
            (m, Err(Error::ProtocolViolation))
        } else {
            (OrganelleModel { phase: Phase::Started, ..m }, Ok(start_wave(m.nodes)))
        },
        Impulse::Signal(src, s) => if m.phase == Phase::Setup {
            (m, Err(Error::InitNeverCalled))
        } else {
            (m, Ok(seq![(m.main, Impulse::Signal(src, s))]))
        },
        _ => (m, Err(Error::ProtocolViolation)),
    }
}

/// A composite node: a set of children, one of them (main) its external
/// face, with the connections among them.
#[derive(Debug, Clone)]
pub struct Organelle<R> {
    parent: Option<Handle>,
    this_hdl: Option<Handle>,
    main_hdl: Handle,
    connections: Vec<(Handle, Handle, R)>,
    nodes: Vec<Handle>,
    phase: Phase,
}

impl<R: Copy> Organelle<R> {
    /// The composite's state as mathematical values.
    pub closed spec fn model(&self) -> OrganelleModel<R> {
        OrganelleModel {
            parent: self.parent,
            this: self.this_hdl,
            main: self.main_hdl,
            nodes: self.nodes@,
            connections: self.connections@,
            phase: self.phase,
        }
    }

    /// Children are distinct, main is one of them, and the composite has
    /// its own identity exactly from `Init` on.
    pub open spec fn wf(&self) -> bool {
        let m = self.model();
        &&& m.nodes.no_duplicates()
        &&& m.nodes.contains(m.main)
        &&& (m.phase == Phase::Setup <==> m.this is None)
    }

    /// A composite whose only child is `main`, added under the handle
    /// `main_hdl` (freshly minted by the caller).
    pub fn new(main_hdl: Handle) -> (r: Self)
        ensures
            r.wf(),
            r.model() == (OrganelleModel::<R> {
                parent: None,
                this: None,
                main: main_hdl,
                nodes: seq![main_hdl],
                connections: Seq::empty(),
                phase: Phase::Setup,
            }),
    {
        let r = Organelle { parent: None, this_hdl: None, main_hdl, connections: Vec::new(), nodes: vec![main_hdl], phase: Phase::Setup };
        proof {
            assert(r.nodes@ =~= seq![main_hdl]);
        }
        r
    }

    /// Whether `hdl` is a local child.
    fn has_node(&self, hdl: Handle) -> (r: bool)
        ensures
            r == self.nodes@.contains(hdl),
    {
        let mut i: usize = 0;
        while i < self.nodes.len()
            invariant
                i <= self.nodes@.len(),
                forall|k: int| 0 <= k < i ==> self.nodes@[k] != hdl,
            decreases self.nodes.len() - i,
        {
            if self.nodes[i] == hdl {
                return true;
            }
            i += 1;
        }
        false
    }

    /// Add a child under the freshly minted handle `handle`, and return it.
    ///
    /// Children can only be added before `Init`, each under its own handle.
    pub fn add_soma(&mut self, handle: Handle) -> (r: Result<Handle, Error<R>>)
        requires
            old(self).wf(),
        ensures
            final(self).wf(),
            old(self).model().phase != Phase::Setup ==> r == Err::<Handle, Error<R>>(Error::AddAfterInit)
                && final(self).model() == old(self).model(),
            old(self).model().phase == Phase::Setup && old(self).model().nodes.contains(handle) ==> r
                == Err::<Handle, Error<R>>(Error::DuplicateHandle(handle)) && final(self).model() == old(
            self).model(),
            old(self).model().phase == Phase::Setup && !old(self).model().nodes.contains(handle) ==> r
                == Ok::<Handle, Error<R>>(handle) && final(self).model() == (OrganelleModel {
                nodes: old(self).model().nodes.push(handle),
                ..old(self).model()
            }),
    {
        if self.phase != Phase::Setup {
            return Err(Error::AddAfterInit);
        }
        if self.has_node(handle) {
            return Err(Error::DuplicateHandle(handle));
        }
        let ghost before = self.nodes@;
        self.nodes.push(handle);
        proof {
            assert(self.nodes@.contains(self.main_hdl)) by {
                let k = choose|k: int| 0 <= k < before.len() && before[k] == self.main_hdl;
                assert(self.nodes@[k] == self.main_hdl);
            }
        }
        Ok(handle)
    }

    /// Record a connection from `input` to `output` under `role`; it is
    /// announced to both ends at `Init`.
    pub fn connect(&mut self, input: Handle, output: Handle, role: R)
        requires
            old(self).wf(),
        ensures
            final(self).wf(),
            final(self).model() == (OrganelleModel {
                connections: old(self).model().connections.push((input, output, role)),
                ..old(self).model()
            }),
    {
        self.connections.push((input, output, role));
    }

    /// The impulse `msg` addressed to the local child `hdl`.
    fn update_node<M>(&self, hdl: Handle, msg: Impulse<M, R>) -> (r: Result<(Handle, Impulse<M, R>), Error<R>>)
        ensures
            self.nodes@.contains(hdl) ==> r == Ok::<(Handle, Impulse<M, R>), Error<R>>((hdl, msg)),
            !self.nodes@.contains(hdl) ==> r == Err::<(Handle, Impulse<M, R>), Error<R>>(
                Error::NodeNotFound(hdl),
            ),
    {
        if self.has_node(hdl) {
            Ok((hdl, msg))
        } else {
            Err(Error::NodeNotFound(hdl))
        }
    }

    fn init<M>(&mut self, parent: Option<Handle>, effector: Effector) -> (r: Vec<(Handle, Impulse<M, R>)>)
        requires
            old(self).wf(),
            old(self).model().phase == Phase::Setup,
        ensures
            final(self).wf(),
            step_of::<M, R>(old(self).model(), Impulse::Init(parent, effector)) == (
                final(self).model(),
                Ok::<Seq<(Handle, Impulse<M, R>)>, Error<R>>(r@),
            ),
    {
        let organelle_hdl = effector.this_soma;
        let ghost nodes = self.nodes@;
        let ghost conns = self.connections@;
        let mut ds: Vec<(Handle, Impulse<M, R>)> = Vec::new();
        let mut i: usize = 0;
        while i < self.nodes.len()
            invariant
                nodes == self.nodes@,
                self.model() == old(self).model(),
                self.wf(),
                old(self).model().phase == Phase::Setup,
                i <= nodes.len(),
                ds@ == init_wave::<M, R>(nodes.take(i as int), organelle_hdl),
            decreases self.nodes.len() - i,
        {
            let hdl = self.nodes[i];
            ds.push((hdl, Impulse::Init(Some(organelle_hdl), Effector { this_soma: hdl })));
            proof {
                assert(ds@ =~= init_wave::<M, R>(nodes.take(i + 1), organelle_hdl));
            }
            i += 1;
        }
        proof {
            assert(nodes.take(i as int) =~= nodes);
        }
        let ghost inits = ds@;
        let mut j: usize = 0;
        while j < self.connections.len()
            invariant
                nodes == self.nodes@,
                conns == self.connections@,
                self.model() == old(self).model(),
                self.wf(),
                old(self).model().phase == Phase::Setup,
                j <= conns.len(),
                inits == init_wave::<M, R>(nodes, organelle_hdl),
                ds@ == inits + wiring_wave::<M, R>(nodes, conns.take(j as int)),
            decreases self.connections.len() - j,
        {
            let (input, output, role) = self.connections[j];
            let ghost t = conns.take(j + 1);
            let ghost before = ds@;
            proof {
                assert(t.drop_last() =~= conns.take(j as int));
                assert(t.last() == (input, output, role));
            }
            if self.has_node(input) {
                ds.push((input, Impulse::AddOutput(output, role)));
            }
            if self.has_node(output) {
                ds.push((output, Impulse::AddInput(input, role)));
            }
            proof {
                assert(ds@ =~= before + wiring_of::<M, R>(nodes, (input, output, role)));
                assert(ds@ =~= inits + wiring_wave::<M, R>(nodes, t));
            }
            j += 1;
        }
        proof {
            assert(conns.take(j as int) =~= conns);
        }
        self.parent = parent;
        self.this_hdl = Some(organelle_hdl);
        self.phase = Phase::Initialized;
        ds
    }

    fn start<M>(&mut self) -> (r: Vec<(Handle, Impulse<M, R>)>)
        requires
            old(self).wf(),
            old(self).model().phase == Phase::Initialized,
        ensures
            final(self).wf(),
            final(self).model() == (OrganelleModel { phase: Phase::Started, ..old(self).model() }),
            r@ == start_wave::<M, R>(old(self).model().nodes),
    {
        let ghost nodes = self.nodes@;
        let mut ds: Vec<(Handle, Impulse<M, R>)> = Vec::new();
        let mut i: usize = 0;
        while i < self.nodes.len()
            invariant
                nodes == self.nodes@,
                i <= nodes.len(),
                ds@ == start_wave::<M, R>(nodes.take(i as int)),
            decreases self.nodes.len() - i,
        {
            ds.push((self.nodes[i], Impulse::Start));
            proof {
                assert(ds@ =~= start_wave::<M, R>(nodes.take(i + 1)));
            }
            i += 1;
        }
        proof {
            assert(nodes.take(i as int) =~= nodes);
        }
        self.phase = Phase::Started;
        ds
    }

    fn add_input<M>(&self, input: Handle, role: R) -> (r: Vec<(Handle, Impulse<M, R>)>)
        requires
            self.wf(),
        ensures
            r@ == seq![(self.model().main, Impulse::<M, R>::AddInput(input, role))],
    {
        vec![(self.main_hdl, Impulse::AddInput(input, role))]
    }

    fn add_output<M>(&self, output: Handle, role: R) -> (r: Vec<(Handle, Impulse<M, R>)>)
        requires
            self.wf(),
        ensures
            r@ == seq![(self.model().main, Impulse::<M, R>::AddOutput(output, role))],
    {
        vec![(self.main_hdl, Impulse::AddOutput(output, role))]
    }

    /// Feed an impulse from the enclosing scope to the composite; return
    /// the impulses to hand to its children, each with the child's handle.
    ///
    /// `Init` initializes every child and then announces each connection to
    /// those of its two ends that are local children;
    /// `AddInput` and `AddOutput` go to the main child, between `Init` and
    /// `Start`; `Start` goes to every child, once; a `Signal` goes to the
    /// main child. On error nothing changes.
    pub fn update<M>(&mut self, msg: Impulse<M, R>) -> (r: Result<Vec<(Handle, Impulse<M, R>)>, Error<R>>)
        requires
            old(self).wf(),
        ensures
            final(self).wf(),
            match step_of::<M, R>(old(self).model(), msg) {
                (m, Ok(ds)) => r matches Ok(v) && v@ == ds && final(self).model() == m,
                (m, Err(e)) => r matches Err(x) && x == e && final(self).model() == m,
            },
    {
        match msg {
            Impulse::Init(parent, effector) => {
                if self.phase != Phase::Setup {
                    return Err(Error::InitTwice);
                }
                Ok(self.init(parent, effector))
            },
            Impulse::AddInput(input, role) => {
                if self.phase != Phase::Initialized {
                    return Err(Error::ProtocolViolation);
                }
                Ok(self.add_input(input, role))
            },
            Impulse::AddOutput(output, role) => {
                if self.phase != Phase::Initialized {
                    return Err(Error::ProtocolViolation);
                }
                Ok(self.add_output(output, role))
            },
            Impulse::Start => {
                if self.phase == Phase::Setup {
                    return Err(Error::InitNeverCalled);
                }
                if self.phase == Phase::Started {
                    return Err(Error::ProtocolViolation);
                }
                Ok(self.start())
            },
            Impulse::Signal(src, m) => {
                if self.phase == Phase::Setup {
                    return Err(Error::InitNeverCalled);
                }
                match self.update_node(self.main_hdl, Impulse::Signal(src, m)) {
                    Ok(d) => Ok(vec![d]),
                    Err(e) => Err(e),
                }
            },
            _ => Err(Error::ProtocolViolation),
        }
    }

    /// What the routing task does with an impulse that a child emitted.
    ///
    /// A payload goes to the main child when addressed to the composite, to
    /// a child when addressed to one, and upward otherwise; its source is
    /// the main child's own handle inside the composite and the composite's
    /// handle outside it. `Stop` and failures go upward.
    pub fn route<M>(&self, imp: Impulse<M, R>) -> (r: Result<Route<M, R>, Error<R>>)
        requires
            self.wf(),
        ensures
            match self.model().this {
                Some(org) => r == route_of(self.model().main, org, self.model().nodes, imp),
                None => r == Err::<Route<M, R>, Error<R>>(Error::InitNeverCalled),
            },
    {
        let organelle_hdl = match self.this_hdl {
            Some(h) => h,
            None => return Err(Error::InitNeverCalled),
        };
        match imp {
            Impulse::Payload(src, dest, msg) => {
                let local = self.has_node(dest);
                let actual_src = if src == self.main_hdl && !(dest == organelle_hdl || local) {
                    organelle_hdl
                } else {
                    src
                };
                if dest == organelle_hdl {
                    Ok(Route::Deliver(self.main_hdl, Impulse::Signal(actual_src, msg)))
                } else if local {
                    Ok(Route::Deliver(dest, Impulse::Signal(actual_src, msg)))
                } else {
                    Ok(Route::Upward(Impulse::Payload(actual_src, dest, msg)))
                }
            },
            Impulse::Probe(_) => Ok(Route::Probe),
            Impulse::Stop => Ok(Route::Upward(Impulse::Stop)),
            Impulse::Failure(e) => Ok(Route::Upward(Impulse::Failure(e))),
            _ => Err(Error::ProtocolViolation),
        }
    }

    /// One turn of the outermost composite's loop over its own queue.
    ///
    /// Lifecycle impulses are applied as by `update`; a payload or probe
    /// must be addressed to the main child (a payload becomes a `Signal`);
    /// `Stop` finishes the run and a failure ends it, lifted as a node
    /// error.
    pub fn process_impulse<M>(&mut self, imp: Impulse<M, R>) -> (r: Result<Step<M, R>, Error<R>>)
        requires
            old(self).wf(),
        ensures
            final(self).wf(),
            match imp {
                Impulse::Payload(src, dest, msg) => if dest == old(self).model().main {
                    match step_of::<M, R>(old(self).model(), Impulse::Signal(src, msg)) {
                        (m, Ok(ds)) => (r matches Ok(Step::Continue(v)) && v@ == ds) && final(self).model() == m,
                        (m, Err(e)) => (r matches Err(x) && x == e) && final(self).model() == m,
                    }
                } else {
                    r matches Err(x) && x == Error::<R>::ProtocolViolation && final(self).model() == old(self).model()
                },
                Impulse::Probe(dest) => final(self).model() == old(self).model() && if dest == old(self).model().main {
                    r matches Ok(Step::Probe)
                } else {
                    r matches Err(x) && x == Error::<R>::ProtocolViolation
                },
                Impulse::Stop => (r matches Ok(Step::Finished)) && final(self).model() == old(self).model(),
                Impulse::Failure(e) => (r matches Err(x) && x == Error::Node(Box::new(e))) && final(self).model() == old(self).model(),
                Impulse::Signal(_, _) => (r matches Err(x) && x == Error::<R>::ProtocolViolation) && final(self).model() == old(self).model(),
                _ => match step_of::<M, R>(old(self).model(), imp) {
                    (m, Ok(ds)) => (r matches Ok(Step::Continue(v)) && v@ == ds) && final(self).model() == m,
                    (m, Err(e)) => (r matches Err(x) && x == e) && final(self).model() == m,
                },
            },
    {
        match imp {
            Impulse::Payload(src, dest, msg) => {
                if dest != self.main_hdl {
                    return Err(Error::ProtocolViolation);
                }
                match self.update(Impulse::Signal(src, msg)) {
                    Ok(ds) => Ok(Step::Continue(ds)),
                    Err(e) => Err(e),
                }
            },
            Impulse::Probe(dest) => {
                if dest != self.main_hdl {
                    return Err(Error::ProtocolViolation);
                }
                Ok(Step::Probe)
            },
            Impulse::Stop => Ok(Step::Finished),
            Impulse::Failure(e) => Err(Error::Node(Box::new(e))),
            Impulse::Signal(_, _) => Err(Error::ProtocolViolation),
            other => {
                match self.update(other) {
                    Ok(ds) => Ok(Step::Continue(ds)),
                    Err(e) => Err(e),
                }
            },
        }
    }

    /// The handle of the main child.
    pub fn get_main_handle(&self) -> (r: Handle)
        ensures
            r == self.model().main,
    {
        self.main_hdl
    }
}

/// The child that receives `ds[j]` received its `Init` at or before `j`.
pub open spec fn init_before<M, R>(ds: Seq<(Handle, Impulse<M, R>)>, j: int) -> bool {
    exists|i: int| 0 <= i <= j && ds[i].0 == ds[j].0 && (#[trigger] ds[i]).1 is Init
}

/// Every wiring impulse goes to a local child.
proof fn lemma_wiring_targets_local<M, R>(nodes: Seq<Handle>, conns: Seq<(Handle, Handle, R)>)
    ensures
        forall|k: int|
            0 <= k < wiring_wave::<M, R>(nodes, conns).len() ==> nodes.contains(
                (#[trigger] wiring_wave::<M, R>(nodes, conns)[k]).0,
            ),
    decreases conns.len(),
{
    if conns.len() > 0 {
        let prev = wiring_wave::<M, R>(nodes, conns.drop_last());
        let last = wiring_of::<M, R>(nodes, conns.last());
        let w = wiring_wave::<M, R>(nodes, conns);
        lemma_wiring_targets_local::<M, R>(nodes, conns.drop_last());
        assert forall|k: int| 0 <= k < w.len() implies nodes.contains((#[trigger] w[k]).0) by {
            if k < prev.len() {
                assert(w[k] == prev[k]);
            } else {
                assert(w[k] == last[k - prev.len()]);
            }
        }
    }
}

/// A payload that the main child sends out of the composite reaches the
/// outside with the composite's own handle as its source.
pub proof fn lemma_outward_from_main<M, R: Copy>(o: Organelle<R>, dest: Handle, msg: M)
    requires
        o.wf(),
        o.model().this is Some,
        dest != o.model().this->Some_0,
        !o.model().nodes.contains(dest),
    ensures
        route_of(o.model().main, o.model().this->Some_0, o.model().nodes, Impulse::<M, R>::Payload(o.model().main, dest, msg))
            == Ok::<Route<M, R>, Error<R>>(Route::Upward(Impulse::Payload(o.model().this->Some_0, dest, msg))),
{
}

/// A payload that the main child sends to a sibling inside the composite
/// reaches it with the main child's own handle as its source.
pub proof fn lemma_inward_from_main<M, R: Copy>(o: Organelle<R>, dest: Handle, msg: M)
    requires
        o.wf(),
        o.model().this is Some,
        dest != o.model().this->Some_0,
        o.model().nodes.contains(dest),
    ensures
        route_of(o.model().main, o.model().this->Some_0, o.model().nodes, Impulse::<M, R>::Payload(o.model().main, dest, msg))
            == Ok::<Route<M, R>, Error<R>>(Route::Deliver(dest, Impulse::Signal(o.model().main, msg))),
{
}

/// When a composite is initialized, the first impulse each child receives
/// is its `Init`: every wiring impulse goes to a local child whose `Init`
/// came earlier in the same wave.
pub proof fn lemma_init_first<M, R: Copy>(o: Organelle<R>, parent: Option<Handle>, eff: Effector)
    requires
        o.wf(),
        step_of::<M, R>(o.model(), Impulse::Init(parent, eff)).1 is Ok,
    ensures
        ({
            let ds = step_of::<M, R>(o.model(), Impulse::Init(parent, eff)).1->Ok_0;
            forall|j: int| 0 <= j < ds.len() ==> #[trigger] init_before(ds, j)
        }),
{
    let m = o.model();
    let inits = init_wave::<M, R>(m.nodes, eff.this_soma);
    let wires = wiring_wave::<M, R>(m.nodes, m.connections);
    let ds = inits + wires;
    assert(step_of::<M, R>(m, Impulse::Init(parent, eff)).1->Ok_0 == ds);
    lemma_wiring_targets_local::<M, R>(m.nodes, m.connections);
    assert forall|j: int| 0 <= j < ds.len() implies #[trigger] init_before(ds, j) by {
        if j < inits.len() {
            assert(ds[j] == inits[j]);
            assert(ds[j].0 == ds[j].0 && ds[j].1 is Init);
        } else {
            let t = wires[j - inits.len()].0;
            assert(ds[j] == wires[j - inits.len()]);
            assert(m.nodes.contains(t));
            let i = choose|i: int| 0 <= i < m.nodes.len() && m.nodes[i] == t;
            assert(ds[i] == inits[i]);
            assert(0 <= i <= j && ds[i].0 == ds[j].0 && ds[i].1 is Init);
        }
    }
}

/// Wiring reaches children only between `Init` and `Start`, `Start` only
/// after `Init`, and each of `Init` and `Start` is accepted once.
pub proof fn lemma_lifecycle_phases<M, R: Copy>(o: Organelle<R>, msg: Impulse<M, R>)
    requires
        o.wf(),
    ensures
        (msg is AddInput || msg is AddOutput) && step_of(o.model(), msg).1 is Ok ==> o.model().phase
            == Phase::Initialized,
        msg is Start && step_of(o.model(), msg).1 is Ok ==> o.model().phase == Phase::Initialized
            && step_of(o.model(), msg).0.phase == Phase::Started,
        msg is Init && step_of(o.model(), msg).1 is Ok ==> o.model().phase == Phase::Setup
            && step_of(o.model(), msg).0.phase == Phase::Initialized,
{
}

} // verus!
