//! A child inside the whole sandbox: what happens when it is waited for, and
//! in which order what was set up for it is let go.

use vstd::prelude::*;

use crate::error;
use crate::error::WindowsBackendError;
use crate::network_ingress::WindowsNetworkRuntimeError;
use crate::runner_session::RunnerSessionError;

verus! {

/// How many milliseconds pass between looks at a child with a route.
pub const WAIT_POLL_MILLISECONDS: u64 = 5;

/// What is held for a child.
#[derive(Clone, Copy, Debug, PartialEq, Eq, Structural)]
pub enum ChildResource {
    /// Its route through the proxy.
    NetworkRoute,
    /// Its rights on files.
    FilesystemEnforcement,
    /// What keeps the setup from being removed.
    ActiveLease,
}

/// A child inside the sandbox.
#[derive(Debug)]
pub struct WindowsChild {
    id: u32,
    held: Vec<ChildResource>,
}

impl View for WindowsChild {
    type V = Seq<ChildResource>;

    /// What is still held for the child, in the order in which it is let go.
    closed spec fn view(&self) -> Seq<ChildResource> {
        self.held@
    }
}

/// What is held for a new child, in the order in which it is let go.
pub open spec fn held_at_first(with_route: bool) -> Seq<ChildResource> {
    (if with_route {
        seq![ChildResource::NetworkRoute]
    } else {
        Seq::empty()
    }) + seq![ChildResource::FilesystemEnforcement, ChildResource::ActiveLease]
}

/// Those of some resources that are no route.
pub open spec fn without_route(held: Seq<ChildResource>) -> Seq<ChildResource> {
    held.filter(|resource: ChildResource| resource != ChildResource::NetworkRoute)
}

impl WindowsChild {
    /// The child's process.
    pub closed spec fn process(self) -> u32 {
        self.id
    }

    /// A child, with or without a route.
    pub fn new(id: u32, with_route: bool) -> (child: WindowsChild)
        ensures
            child.process() == id,
            child@ == held_at_first(with_route),
    {
        let mut held: Vec<ChildResource> = Vec::new();
        if with_route {
            held.push(ChildResource::NetworkRoute);
        }
        held.push(ChildResource::FilesystemEnforcement);
        held.push(ChildResource::ActiveLease);
        let child = WindowsChild { id, held };
        assert(child@ =~= held_at_first(with_route));
        child
    }

    /// The child's process.
    pub fn id(&self) -> (id: u32)
        ensures
            id == self.process(),
    {
        self.id
    }

    /// Whether a route is held for the child.
    pub fn has_route(&self) -> (yes: bool)
        ensures
            yes == self@.contains(ChildResource::NetworkRoute),
    {
        for i in 0..self.held.len()
            invariant
                forall|j: int| 0 <= j < i ==> self.held@[j] != ChildResource::NetworkRoute,
        {
            if self.held[i] == ChildResource::NetworkRoute {
                assert(self@[i as int] == ChildResource::NetworkRoute);
                return true;
            }
        }
        false
    }

    /// Lets everything go, in order.
    pub fn release_completed_boundaries(&mut self) -> (released: Vec<ChildResource>)
        ensures
            released@ == old(self)@,
            final(self)@ == Seq::<ChildResource>::empty(),
            final(self).process() == old(self).process(),
    {
        let mut released: Vec<ChildResource> = Vec::new();
        std::mem::swap(&mut released, &mut self.held);
        released
    }

    /// Lets the route go.
    fn drop_route(&mut self)
        ensures
            final(self)@ == without_route(old(self)@),
            final(self).process() == old(self).process(),
    {
        let ghost keep = |resource: ChildResource| resource != ChildResource::NetworkRoute;
        let ghost before = self.held@;
        let mut kept: Vec<ChildResource> = Vec::new();
        proof {
            reveal(Seq::filter);
            assert(before.take(0) =~= Seq::<ChildResource>::empty());
        }
        for i in 0..self.held.len()
            invariant
                *self == *old(self),
                before == self.held@,
                keep == |resource: ChildResource| resource != ChildResource::NetworkRoute,
                kept@ == before.take(i as int).filter(keep),
        {
            proof {
                reveal(Seq::filter);
                assert(before.take(i + 1).drop_last() =~= before.take(i as int));
            }
            if self.held[i] != ChildResource::NetworkRoute {
                kept.push(self.held[i]);
            }
        }
        assert(before.take(before.len() as int) =~= before);
        self.held = kept;
    }

    /// What a request to kill the child comes to, after its session was told
    /// to. The route is let go only where everything has ended.
    pub fn kill<E>(&mut self, killed: Result<(), RunnerSessionError<E>>) -> (result: Result<
        (),
        WindowsBackendError<E>,
    >)
        ensures
            match killed {
                Ok(_) => final(self)@ == without_route(old(self)@) && result is Ok,
                Err(source) => final(self)@ == old(self)@ && result == Err::<
                    (),
                    WindowsBackendError<E>,
                >(error::session_report(source)),
            },
            final(self).process() == old(self).process(),
    {
        match killed {
            Ok(_) => {
                self.drop_route();
                Ok(())
            },
            Err(source) => Err(WindowsBackendError::runner_session(source)),
        }
    }
}

/// The next step of looking at a child, or what it came to.
#[derive(Debug)]
pub enum WaitStep<E> {
    /// See whether the route still serves.
    CheckNetwork,
    /// Look whether the child ended, or wait until it did.
    AskSession,
    /// Kill the child, and see that everything has ended.
    Kill {
        /// What it came to.
        error: WindowsBackendError<E>,
    },
    /// Let everything go that is held for the child.
    Release {
        /// What it came to.
        result: Result<u32, WindowsBackendError<E>>,
    },
    /// The child still runs.
    Running,
    /// The child ended.
    Exited {
        /// How.
        code: u32,
    },
    /// Looking at the child failed.
    Failed {
        /// Why.
        error: WindowsBackendError<E>,
    },
}

/// What came of a step.
#[derive(Debug)]
pub enum WaitEvent<E> {
    /// Whether the route still serves.
    Health(Result<(), WindowsNetworkRuntimeError<E>>),
    /// Whether the child ended.
    Session(Result<Option<u32>, RunnerSessionError<E>>),
    /// Whether the child was killed, and everything with it has ended.
    Killed(Result<(), RunnerSessionError<E>>),
    /// Everything was let go.
    Released,
}

impl<E> WaitStep<E> {
    /// The first step of looking at a child.
    pub fn first(has_route: bool) -> (step: WaitStep<E>)
        ensures
            step == (if has_route {
                WaitStep::<E>::CheckNetwork
            } else {
                WaitStep::<E>::AskSession
            }),
    {
        if has_route {
            WaitStep::CheckNetwork
        } else {
            WaitStep::AskSession
        }
    }

    /// Whether an event can come of the step.
    pub open spec fn expects(self, event: WaitEvent<E>) -> bool {
        match self {
            WaitStep::CheckNetwork => event is Health,
            WaitStep::AskSession => event is Session,
            WaitStep::Kill { .. } => event is Killed,
            WaitStep::Release { .. } => event is Released,
            WaitStep::Running | WaitStep::Exited { .. } | WaitStep::Failed { .. } => false,
        }
    }

    /// The step after an event. A child that took too long has ended, as its
    /// session found; one that cannot be looked at for another reason is
    /// killed first. Where that fails, nothing is let go.
    pub open spec fn after(self, event: WaitEvent<E>) -> WaitStep<E> {
        match (self, event) {
            (WaitStep::CheckNetwork, WaitEvent::Health(Ok(_))) => WaitStep::AskSession,
            (WaitStep::CheckNetwork, WaitEvent::Health(Err(error))) => WaitStep::Kill {
                error: WindowsBackendError::NetworkRuntime(error),
            },
            (WaitStep::AskSession, WaitEvent::Session(Ok(Some(code)))) => WaitStep::Release {
                result: Ok(code),
            },
            (WaitStep::AskSession, WaitEvent::Session(Ok(None))) => WaitStep::Running,
            (WaitStep::AskSession, WaitEvent::Session(Err(source))) => if source is TimedOut {
                WaitStep::Release { result: Err(error::session_report(source)) }
            } else {
                WaitStep::Kill { error: error::session_report(source) }
            },
            (WaitStep::Kill { error }, WaitEvent::Killed(Ok(_))) => WaitStep::Release {
                result: Err(error),
            },
            (WaitStep::Kill { error }, WaitEvent::Killed(Err(_))) => WaitStep::Failed { error },
            (WaitStep::Release { result: Ok(code) }, WaitEvent::Released) => WaitStep::Exited {
                code,
            },
            (WaitStep::Release { result: Err(error) }, WaitEvent::Released) => WaitStep::Failed {
                error,
            },
            (step, _) => step,
        }
    }

    /// Takes the step after an event.
    pub fn advance(self, event: WaitEvent<E>) -> (step: WaitStep<E>)
        requires
            self.expects(event),
        ensures
            step == self.after(event),
    {
        match (self, event) {
            (WaitStep::CheckNetwork, WaitEvent::Health(Ok(_))) => WaitStep::AskSession,
            (WaitStep::CheckNetwork, WaitEvent::Health(Err(error))) => WaitStep::Kill {
                error: WindowsBackendError::NetworkRuntime(error),
            },
            (WaitStep::AskSession, WaitEvent::Session(Ok(Some(code)))) => WaitStep::Release {
                result: Ok(code),
            },
            (WaitStep::AskSession, WaitEvent::Session(Ok(None))) => WaitStep::Running,
            (WaitStep::AskSession, WaitEvent::Session(Err(source))) => {
                let ended = matches!(source, RunnerSessionError::TimedOut);
                let error = WindowsBackendError::runner_session(source);
                if ended {
                    WaitStep::Release { result: Err(error) }
                } else {
                    WaitStep::Kill { error }
                }
            },
            (WaitStep::Kill { error }, WaitEvent::Killed(Ok(_))) => WaitStep::Release {
                result: Err(error),
            },
            (WaitStep::Kill { error }, WaitEvent::Killed(Err(_))) => WaitStep::Failed { error },
            (WaitStep::Release { result: Ok(code) }, WaitEvent::Released) => WaitStep::Exited {
                code,
            },
            (WaitStep::Release { result: Err(error) }, WaitEvent::Released) => WaitStep::Failed {
                error,
            },
            (step, _) => step,
        }
    }
}

/// Whether what keeps the setup from being removed is let go last, and once.
pub open spec fn lease_is_last(held: Seq<ChildResource>) -> bool {
    &&& held.len() > 0
    &&& held.last() == ChildResource::ActiveLease
    &&& forall|i: int|
        0 <= i < held.len() - 1 ==> #[trigger] held[i] != ChildResource::ActiveLease
}

/// What keeps the setup from being removed is let go last, whether the route
/// was let go before or not.
pub proof fn lease_goes_last(with_route: bool)
    ensures
        lease_is_last(held_at_first(with_route)),
        lease_is_last(without_route(held_at_first(with_route))),
{
    let held = held_at_first(with_route);
    reveal_with_fuel(Seq::filter, 4);
    assert(without_route(held) =~= seq![
        ChildResource::FilesystemEnforcement,
        ChildResource::ActiveLease,
    ]) by {
        if with_route {
            assert(held.drop_last().drop_last() =~= seq![ChildResource::NetworkRoute]);
            assert(held.drop_last().drop_last().drop_last() =~= Seq::empty());
        } else {
            assert(held.drop_last().drop_last() =~= Seq::empty());
        }
    }
}

/// Whether an event shows that the child and everything with it has ended.
pub open spec fn end_is_confirmed<E>(event: WaitEvent<E>) -> bool {
    match event {
        WaitEvent::Session(Ok(Some(_))) => true,
        WaitEvent::Session(Err(source)) => source is TimedOut,
        WaitEvent::Killed(Ok(_)) => true,
        _ => false,
    }
}

/// What is held for a child is let go only after an event that shows that
/// everything has ended, and always after such an event. Whoever is told that
/// the child ended finds everything let go. Whoever is told that looking at it
/// failed finds everything let go, except where killing the child failed too:
/// everything is then still held.
pub proof fn boundaries_outlive_the_child<E>(step: WaitStep<E>, event: WaitEvent<E>)
    requires
        step.expects(event),
    ensures
        step.after(event) is Release <==> end_is_confirmed(event),
        step.after(event) is Exited ==> step is Release,
        step.after(event) is Failed ==> step is Release || (event matches WaitEvent::Killed(result)
            && result is Err),
        event matches WaitEvent::Killed(Err(_)) ==> step.after(event) is Failed,
{
}

/// A child that cannot be looked at, and whose session did not find that it
/// took too long, is killed; where killing fails, looking at it fails with the
/// first error and nothing is let go.
pub proof fn failed_kill_lets_nothing_go<E>(
    source: RunnerSessionError<E>,
    killed: RunnerSessionError<E>,
)
    requires
        !(source is TimedOut),
    ensures
        WaitStep::<E>::AskSession.after(WaitEvent::Session(Err(source))).after(
            WaitEvent::Killed(Err(killed)),
        ) == (WaitStep::<E>::Failed { error: error::session_report(source) }),
{
}

/// What a step of waiting for a child comes from: a child counts as exited with
/// the code that its session told, and as failed for the first cause that was found;
/// it is killed where its network or its session is lost, and for nothing else.
pub proof fn waiting_keeps_the_first_cause<E>(step: WaitStep<E>, event: WaitEvent<E>)
    requires
        step.expects(event),
    ensures
        match step.after(event) {
            WaitStep::CheckNetwork => false,
            WaitStep::AskSession => event matches WaitEvent::Health(health) && health is Ok,
            WaitStep::Kill { error } => (event matches WaitEvent::Health(Err(cause)) && error
                == WindowsBackendError::NetworkRuntime(cause)) || (event matches WaitEvent::Session(
                Err(source),
            ) && !(source is TimedOut) && error == error::session_report(source)),
            WaitStep::Release { result } => match result {
                Ok(code) => event == WaitEvent::<E>::Session(Ok(Some(code))),
                Err(error) => step == (WaitStep::Kill { error }) || (event matches WaitEvent::Session(
                    Err(source),
                ) && source is TimedOut && error == error::session_report(source)),
            },
            WaitStep::Running => event == WaitEvent::<E>::Session(Ok(None)),
            WaitStep::Exited { code } => step == (WaitStep::<E>::Release { result: Ok(code) }),
            WaitStep::Failed { error } => step == (WaitStep::Release { result: Err(error) }) || step
                == (WaitStep::Kill { error }) && (event matches WaitEvent::Killed(killed) && killed
                is Err),
        },
{
}

/// A child that loses its route loses nothing else, and keeps what it holds in
/// order.
pub proof fn only_the_route_is_dropped(with_route: bool, resource: ChildResource)
    ensures
        held_at_first(with_route).contains(resource) <==> !(resource is NetworkRoute) || with_route,
        without_route(held_at_first(with_route)).contains(resource) <==> !(resource
            is NetworkRoute),
        without_route(held_at_first(with_route)) == held_at_first(false),
{
    reveal(Seq::filter);
    reveal_with_fuel(Seq::filter, 4);
    let held = held_at_first(with_route);
    let rest = seq![ChildResource::FilesystemEnforcement, ChildResource::ActiveLease];
    assert(rest.drop_last() =~= seq![ChildResource::FilesystemEnforcement]);
    assert(rest.drop_last().drop_last() =~= Seq::empty());
    if with_route {
        assert(held =~= seq![
            ChildResource::NetworkRoute,
            ChildResource::FilesystemEnforcement,
            ChildResource::ActiveLease,
        ]);
        assert(held.drop_last() =~= seq![
            ChildResource::NetworkRoute,
            ChildResource::FilesystemEnforcement,
        ]);
        assert(held.drop_last().drop_last() =~= seq![ChildResource::NetworkRoute]);
        assert(held.drop_last().drop_last().drop_last() =~= Seq::empty());
        assert(held[0] is NetworkRoute);
    } else {
        assert(held =~= rest);
    }
    let n: int = if with_route {
        1
    } else {
        0
    };
    assert(held[n] is FilesystemEnforcement);
    assert(held[n + 1] is ActiveLease);
    assert(without_route(held) =~= rest);
    assert(held_at_first(false) =~= rest);
    assert(rest[0] is FilesystemEnforcement);
    assert(rest[1] is ActiveLease);
}

} // verus!
