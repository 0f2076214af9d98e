//! Which launch a connection to the proxy belongs to: routes, kept under the
//! random identity that each launch runs with.

use vstd::prelude::*;

use crate::random_sid;
use crate::text;

verus! {

/// How often a random identity is drawn for a route.
pub const MAX_ROUTE_SID_ATTEMPTS: usize = 64;

/// Why no route can be registered.
#[derive(Debug)]
pub enum RouteError {
    /// The random number source failed.
    RouteSidGeneration {
        /// Its failure.
        source: getrandom::Error,
    },
    /// Every drawn identity had a route already.
    RouteSidCollisionLimit {
        /// How many were drawn.
        attempts: usize,
    },
    /// Whoever held the routes broke off amid a change.
    RouteRegistryPoisoned,
}

/// What drawing an identity for a route comes to.
#[derive(Debug)]
pub enum RouteDraw {
    /// The route is registered.
    Registered {
        /// Under this identity.
        sid: String,
    },
    /// Another identity is to be drawn.
    Again,
    /// No route is registered.
    Failed {
        /// Why.
        error: RouteError,
    },
}

/// Why no route can be chosen for a connection.
#[derive(Clone, Copy, Debug, PartialEq, Eq, Structural)]
pub enum RouteChoiceError {
    /// Whoever held the routes broke off amid a change.
    RouteRegistryPoisoned,
    /// None of the identities has a route.
    RouteMissing,
    /// Several of the identities have a route.
    RouteDuplicate,
}

/// The routes that are registered: which service each identity's connections
/// go to. A service is known by its number.
#[derive(Debug)]
pub struct RouteRegistry {
    sids: Vec<String>,
    services: Vec<u64>,
}

/// The position of an identity in a list, if it is there.
spec fn found(sids: Seq<Seq<char>>, sid: Seq<char>, i: int) -> bool {
    0 <= i < sids.len() && sids[i] == sid
}

/// The services of those identities that have a route, in order.
pub open spec fn routes_of(routes: Map<Seq<char>, u64>, sids: Seq<Seq<char>>) -> Seq<u64>
    decreases sids.len(),
{
    if sids.len() == 0 {
        Seq::empty()
    } else {
        let before = routes_of(routes, sids.drop_last());
        if routes.dom().contains(sids.last()) {
            before.push(routes[sids.last()])
        } else {
            before
        }
    }
}

/// The one route for identities.
pub open spec fn chosen_route(routes: Map<Seq<char>, u64>, sids: Seq<Seq<char>>) -> Result<
    u64,
    RouteChoiceError,
> {
    let list = routes_of(routes, sids);
    if list.len() == 0 {
        Err(RouteChoiceError::RouteMissing)
    } else if list.len() > 1 {
        Err(RouteChoiceError::RouteDuplicate)
    } else {
        Ok(list[0])
    }
}

impl View for RouteRegistry {
    type V = Map<Seq<char>, u64>;

    /// The service of every identity that has a route.
    closed spec fn view(&self) -> Map<Seq<char>, u64> {
        let sids = text::texts(self.sids@);
        Map::new(
            |sid: Seq<char>| exists|i: int| found(sids, sid, i),
            |sid: Seq<char>| self.services@[choose|i: int| found(sids, sid, i)],
        )
    }
}

impl RouteRegistry {
    /// Whether each identity is there once and has a service.
    pub closed spec fn wf(self) -> bool {
        &&& self.sids@.len() == self.services@.len()
        &&& forall|i: int, j: int|
            0 <= i < j < self.sids@.len() ==> #[trigger] self.sids@[i]@ != #[trigger] self.sids@[j]@
    }

    /// What the registry says of the identity at a position.
    proof fn at(self, i: int)
        requires
            self.wf(),
            0 <= i < self.sids@.len(),
        ensures
            self@.dom().contains(self.sids@[i]@),
            self@[self.sids@[i]@] == self.services@[i],
    {
        let sids = text::texts(self.sids@);
        let sid = self.sids@[i]@;
        assert(found(sids, sid, i));
        let k = choose|k: int| found(sids, sid, k);
        assert(found(sids, sid, k));
        assert(self.sids@[k]@ == sid);
        if k < i {
            assert(self.sids@[k]@ != self.sids@[i]@);
        } else if i < k {
            assert(self.sids@[i]@ != self.sids@[k]@);
        }
    }

    /// An identity that is at no position has no route.
    proof fn nowhere(self, sid: Seq<char>)
        requires
            forall|i: int| 0 <= i < self.sids@.len() ==> #[trigger] self.sids@[i]@ != sid,
        ensures
            !self@.dom().contains(sid),
    {
        let sids = text::texts(self.sids@);
        assert forall|i: int| !found(sids, sid, i) by {
            if found(sids, sid, i) {
                assert(sids[i] == self.sids@[i]@);
            }
        }
    }

    /// No routes.
    pub fn new() -> (registry: RouteRegistry)
        ensures
            registry.wf(),
            registry@ == Map::<Seq<char>, u64>::empty(),
    {
        let registry = RouteRegistry { sids: Vec::new(), services: Vec::new() };
        proof {
            assert forall|sid: Seq<char>| !registry@.dom().contains(sid) by {
                registry.nowhere(sid);
            }
            assert(registry@ =~= Map::<Seq<char>, u64>::empty());
        }
        registry
    }

    /// Where an identity is.
    fn position(&self, sid: &str) -> (position: Option<usize>)
        requires
            self.wf(),
        ensures
            match position {
                Some(i) => i < self.sids@.len() && self.sids@[i as int]@ == sid@,
                None => forall|i: int| 0 <= i < self.sids@.len() ==> #[trigger] self.sids@[i]@
                    != sid@,
            },
    {
        for i in 0..self.sids.len()
            invariant
                forall|j: int| 0 <= j < i ==> #[trigger] self.sids@[j]@ != sid@,
        {
            if text::same_text(self.sids[i].as_str(), sid) {
                return Some(i);
            }
        }
        None
    }

    /// The service that an identity's connections go to.
    pub fn get(&self, sid: &str) -> (services: Option<u64>)
        requires
            self.wf(),
        ensures
            services == (if self@.dom().contains(sid@) {
                Some(self@[sid@])
            } else {
                None::<u64>
            }),
    {
        match self.position(sid) {
            Some(i) => {
                proof {
                    self.at(i as int);
                }
                Some(self.services[i])
            },
            None => {
                proof {
                    self.nowhere(sid@);
                }
                None
            },
        }
    }

    /// Registers a route under an identity, unless it has one.
    pub fn offer(&mut self, sid: &str, services: u64) -> (taken: bool)
        requires
            old(self).wf(),
        ensures
            final(self).wf(),
            taken == !old(self)@.dom().contains(sid@),
            final(self)@ == (if taken {
                old(self)@.insert(sid@, services)
            } else {
                old(self)@
            }),
    {
        match self.position(sid) {
            Some(i) => {
                proof {
                    self.at(i as int);
                }
                false
            },
            None => {
                proof {
                    self.nowhere(sid@);
                }
                self.sids.push(sid.to_owned());
                self.services.push(services);
                proof {
                    let before = *old(self);
                    let after = *self;
                    let last = before.sids@.len() as int;
                    assert(after.sids@ =~= before.sids@.push(after.sids@[last]));
                    assert(after.wf());
                    assert forall|other: Seq<char>|
                        #[trigger] after@.dom().contains(other) == before@.insert(
                            sid@,
                            services,
                        ).dom().contains(other) && (after@.dom().contains(other) ==> after@[other] == before@.insert(
                            sid@,
                            services,
                        )[other]) by {
                        if other == sid@ {
                            after.at(last);
                        } else if exists|i: int|
                            0 <= i < before.sids@.len() && #[trigger] before.sids@[i]@ == other {
                            let i = choose|i: int|
                                0 <= i < before.sids@.len() && #[trigger] before.sids@[i]@ == other;
                            before.at(i);
                            after.at(i);
                        } else {
                            before.nowhere(other);
                            assert forall|i: int| 0 <= i < after.sids@.len() implies #[trigger] after.sids@[i]@
                                != other by {
                                if i < last {
                                    assert(before.sids@[i]@ != other);
                                }
                            }
                            after.nowhere(other);
                        }
                    }
                    let wanted = before@.insert(sid@, services);
                    assert(after@.dom() =~= wanted.dom());
                    assert forall|other: Seq<char>| wanted.dom().contains(other) implies after@[other]
                        == #[trigger] wanted[other] by {
                        assert(after@.dom().contains(other));
                    }
                    assert(after@ =~= wanted);
                }
                true
            },
        }
    }

    /// What a drawn identity comes to: the route is registered under it, where
    /// it has none yet; otherwise another one is drawn, up to a limit.
    pub fn after_draw(
        &mut self,
        drawn: Result<String, getrandom::Error>,
        attempt: usize,
        services: u64,
    ) -> (next: RouteDraw)
        requires
            old(self).wf(),
            attempt < MAX_ROUTE_SID_ATTEMPTS,
        ensures
            final(self).wf(),
            match drawn {
                Ok(sid) => if !old(self)@.dom().contains(sid@) {
                    (next matches RouteDraw::Registered { sid: registered } && registered@ == sid@)
                        && final(self)@ == old(self)@.insert(sid@, services)
                } else {
                    final(self)@ == old(self)@ && (if attempt + 1 < MAX_ROUTE_SID_ATTEMPTS {
                        next is Again
                    } else {
                        next == (RouteDraw::Failed {
                            error: RouteError::RouteSidCollisionLimit {
                                attempts: MAX_ROUTE_SID_ATTEMPTS,
                            },
                        })
                    })
                },
                Err(source) => final(self)@ == old(self)@ && next == (RouteDraw::Failed {
                    error: RouteError::RouteSidGeneration { source },
                }),
            },
    {
        match drawn {
            Ok(sid) => {
                if self.offer(sid.as_str(), services) {
                    RouteDraw::Registered { sid }
                } else if attempt + 1 < MAX_ROUTE_SID_ATTEMPTS {
                    RouteDraw::Again
                } else {
                    RouteDraw::Failed {
                        error: RouteError::RouteSidCollisionLimit {
                            attempts: MAX_ROUTE_SID_ATTEMPTS,
                        },
                    }
                }
            },
            Err(source) => RouteDraw::Failed { error: RouteError::RouteSidGeneration { source } },
        }
    }

    /// Registers a route under a random identity that has none.
    pub fn register_route(&mut self, services: u64) -> (sid: Result<String, RouteError>)
        requires
            old(self).wf(),
        ensures
            final(self).wf(),
            match sid {
                Ok(drawn) => random_sid::is_random_sid(drawn@) && !old(self)@.dom().contains(drawn@)
                    && final(self)@ == old(self)@.insert(drawn@, services),
                Err(RouteError::RouteSidGeneration { .. }) => final(self)@ == old(self)@,
                Err(RouteError::RouteSidCollisionLimit { attempts }) => final(self)@ == old(self)@
                    && attempts == MAX_ROUTE_SID_ATTEMPTS && exists|taken: Seq<char>| #[trigger]
                    old(self)@.dom().contains(taken) && random_sid::is_random_sid(taken),
                Err(RouteError::RouteRegistryPoisoned) => false,
            },
    {
        let ghost mut last: Seq<char> = Seq::empty();
        for attempt in 0..MAX_ROUTE_SID_ATTEMPTS
            invariant
                self.wf(),
                self@ == old(self)@,
                attempt > 0 ==> old(self)@.dom().contains(last) && random_sid::is_random_sid(last),
        {
            let drawn = random_sid::draw_sid();
            proof {
                last = drawn->Ok_0@;
            }
            match self.after_draw(drawn, attempt, services) {
                RouteDraw::Registered { sid } => {
                    return Ok(sid);
                },
                RouteDraw::Again => {},
                RouteDraw::Failed { error } => {
                    return Err(error);
                },
            }
        }
        Err(RouteError::RouteSidCollisionLimit { attempts: MAX_ROUTE_SID_ATTEMPTS })
    }

    /// Chooses the one route for the identities that a connection's process
    /// runs with.
    pub fn registered_route_for_sids(&self, poisoned: bool, restricting_sids: &[String]) -> (route:
        Result<u64, RouteChoiceError>)
        requires
            self.wf(),
        ensures
            route == (if poisoned {
                Err::<u64, RouteChoiceError>(RouteChoiceError::RouteRegistryPoisoned)
            } else {
                chosen_route(self@, text::texts(restricting_sids@))
            }),
    {
        if poisoned {
            return Err(RouteChoiceError::RouteRegistryPoisoned);
        }
        let ghost sids = text::texts(restricting_sids@);
        let mut list: Vec<u64> = Vec::new();
        for i in 0..restricting_sids.len()
            invariant
                self.wf(),
                sids == text::texts(restricting_sids@),
                list@ == routes_of(self@, sids.take(i as int)),
        {
            assert(sids.take(i + 1).drop_last() =~= sids.take(i as int));
            assert(sids[i as int] == restricting_sids@[i as int]@);
            match self.get(restricting_sids[i].as_str()) {
                Some(services) => {
                    list.push(services);
                },
                None => {},
            }
        }
        assert(sids.take(sids.len() as int) =~= sids);
        if list.len() == 0 {
            Err(RouteChoiceError::RouteMissing)
        } else if list.len() > 1 {
            Err(RouteChoiceError::RouteDuplicate)
        } else {
            Ok(list[0])
        }
    }

    /// Takes a route away from its identity, if it is still the route's own.
    /// After someone broke off amid a change, nothing is taken away.
    pub fn remove_route_if_owned(&mut self, poisoned: bool, sid: &str, services: u64)
        requires
            old(self).wf(),
        ensures
            final(self).wf(),
            final(self)@ == (if !poisoned && old(self)@.dom().contains(sid@) && old(self)@[sid@]
                == services {
                old(self)@.remove(sid@)
            } else {
                old(self)@
            }),
    {
        if poisoned {
            return;
        }
        match self.position(sid) {
            Some(i) => {
                proof {
                    self.at(i as int);
                }
                if self.services[i] == services {
                    self.sids.remove(i);
                    self.services.remove(i);
                    proof {
                        let before = *old(self);
                        let after = *self;
                        let at = i as int;
                        assert(after.sids@ =~= before.sids@.remove(at));
                        assert(after.services@ =~= before.services@.remove(at));
                        assert forall|a: int, b: int| 0 <= a < b < after.sids@.len() implies #[trigger] after.sids@[a]@
                            != #[trigger] after.sids@[b]@ by {
                            let a0 = if a < at {
                                a
                            } else {
                                a + 1
                            };
                            let b0 = if b < at {
                                b
                            } else {
                                b + 1
                            };
                            assert(before.sids@[a0]@ != before.sids@[b0]@);
                        }
                        assert(after.wf());
                        assert forall|other: Seq<char>|
                            #[trigger] after@.dom().contains(other) == before@.remove(
                                sid@,
                            ).dom().contains(other) && (after@.dom().contains(other) ==> after@[other]
                                == before@[other]) by {
                            if exists|k: int|
                                0 <= k < after.sids@.len() && #[trigger] after.sids@[k]@ == other {
                                let k = choose|k: int|
                                    0 <= k < after.sids@.len() && #[trigger] after.sids@[k]@ == other;
                                let k0 = if k < at {
                                    k
                                } else {
                                    k + 1
                                };
                                after.at(k);
                                before.at(k0);
                                assert(before.sids@[k0]@ != before.sids@[at]@);
                            } else {
                                after.nowhere(other);
                                if other != sid@ {
                                    assert forall|k0: int| 0 <= k0 < before.sids@.len() implies #[trigger] before.sids@[k0]@
                                        != other by {
                                        if k0 < at {
                                            assert(after.sids@[k0]@ != other);
                                        } else if k0 > at {
                                            assert(after.sids@[k0 - 1]@ != other);
                                        }
                                    }
                                    before.nowhere(other);
                                }
                            }
                        }
                        let wanted = before@.remove(sid@);
                        assert(after@.dom() =~= wanted.dom());
                        assert forall|other: Seq<char>| wanted.dom().contains(
                            other,
                        ) implies after@[other] == #[trigger] wanted[other] by {
                            assert(after@.dom().contains(other));
                        }
                        assert(after@ =~= wanted);
                    }
                }
            },
            None => {
                proof {
                    self.nowhere(sid@);
                }
            },
        }
    }
}

/// A connection whose process runs with exactly one registered identity is
/// served by that identity's route, and by no other.
pub proof fn the_only_registered_identity_decides(
    routes: Map<Seq<char>, u64>,
    sids: Seq<Seq<char>>,
    k: int,
)
    requires
        0 <= k < sids.len(),
        routes.dom().contains(sids[k]),
        forall|i: int| 0 <= i < sids.len() && i != k ==> !routes.dom().contains(#[trigger] sids[i]),
    ensures
        chosen_route(routes, sids) == Ok::<u64, RouteChoiceError>(routes[sids[k]]),
{
    only_one_counts(routes, sids, k);
}

/// Identities without routes come to nothing.
proof fn none_counts(routes: Map<Seq<char>, u64>, sids: Seq<Seq<char>>)
    requires
        forall|i: int| 0 <= i < sids.len() ==> !routes.dom().contains(#[trigger] sids[i]),
    ensures
        routes_of(routes, sids).len() == 0,
    decreases sids.len(),
{
    if sids.len() > 0 {
        assert forall|i: int| 0 <= i < sids.drop_last().len() implies !routes.dom().contains(
            #[trigger] sids.drop_last()[i],
        ) by {
            assert(sids.drop_last()[i] == sids[i]);
        }
        none_counts(routes, sids.drop_last());
        assert(!routes.dom().contains(sids[sids.len() - 1]));
    }
}

/// One identity with a route comes to that route.
proof fn only_one_counts(routes: Map<Seq<char>, u64>, sids: Seq<Seq<char>>, k: int)
    requires
        0 <= k < sids.len(),
        routes.dom().contains(sids[k]),
        forall|i: int| 0 <= i < sids.len() && i != k ==> !routes.dom().contains(#[trigger] sids[i]),
    ensures
        routes_of(routes, sids) == seq![routes[sids[k]]],
    decreases sids.len(),
{
    let rest = sids.drop_last();
    if k == sids.len() - 1 {
        assert forall|i: int| 0 <= i < rest.len() implies !routes.dom().contains(
            #[trigger] rest[i],
        ) by {
            assert(rest[i] == sids[i]);
        }
        none_counts(routes, rest);
        assert(routes_of(routes, sids) =~= seq![routes[sids[k]]]);
    } else {
        assert(rest[k] == sids[k]);
        assert forall|i: int| 0 <= i < rest.len() && i != k implies !routes.dom().contains(
            #[trigger] rest[i],
        ) by {
            assert(rest[i] == sids[i]);
        }
        only_one_counts(routes, rest, k);
        assert(!routes.dom().contains(sids[sids.len() - 1]));
    }
}

/// Routes are counted one by one: from a list that holds no registered identity
/// none comes, and from one that holds two, two.
proof fn registered_are_counted(routes: Map<Seq<char>, u64>, sids: Seq<Seq<char>>)
    ensures
        routes_of(routes, sids).len() == 0 <==> forall|i: int|
            0 <= i < sids.len() ==> !routes.dom().contains(#[trigger] sids[i]),
        routes_of(routes, sids).len() > 1 <==> exists|i: int, j: int|
            0 <= i < j < sids.len() && routes.dom().contains(#[trigger] sids[i])
                && routes.dom().contains(#[trigger] sids[j]),
        routes_of(routes, sids).len() == 1 ==> exists|i: int|
            0 <= i < sids.len() && routes.dom().contains(#[trigger] sids[i]) && routes[sids[i]]
                == routes_of(routes, sids)[0],
    decreases sids.len(),
{
    if sids.len() > 0 {
        let front = sids.drop_last();
        let last = sids.last();
        let n = sids.len() - 1;
        registered_are_counted(routes, front);
        let held = routes_of(routes, front);
        let now = routes_of(routes, sids);
        assert forall|i: int| 0 <= i < n implies #[trigger] front[i] == sids[i] by {}
        assert(sids[n] == last);
        if held.len() > 0 {
            let i = choose|i: int| 0 <= i < front.len() && routes.dom().contains(#[trigger] front[i]);
            assert(routes.dom().contains(sids[i]));
            if routes.dom().contains(last) {
                assert(routes.dom().contains(sids[n]));
            }
        }
        if held.len() > 1 {
            let (i, j) = choose|i: int, j: int|
                0 <= i < j < front.len() && routes.dom().contains(#[trigger] front[i])
                    && routes.dom().contains(#[trigger] front[j]);
            assert(routes.dom().contains(sids[i]) && routes.dom().contains(sids[j]));
        }
        if exists|i: int, j: int|
            0 <= i < j < sids.len() && routes.dom().contains(#[trigger] sids[i])
                && routes.dom().contains(#[trigger] sids[j]) {
            let (i, j) = choose|i: int, j: int|
                0 <= i < j < sids.len() && routes.dom().contains(#[trigger] sids[i])
                    && routes.dom().contains(#[trigger] sids[j]);
            assert(routes.dom().contains(front[i]));
            if j < n {
                assert(routes.dom().contains(front[j]));
            }
        }
        if now.len() == 0 {
            assert forall|i: int| 0 <= i < sids.len() implies !routes.dom().contains(
                #[trigger] sids[i],
            ) by {
                if i < n {
                    assert(!routes.dom().contains(front[i]));
                }
            }
        }
        if now.len() == 1 {
            if routes.dom().contains(last) {
                assert(now[0] == routes[last]);
                assert(routes.dom().contains(sids[n]));
            } else {
                let i = choose|i: int|
                    0 <= i < front.len() && routes.dom().contains(#[trigger] front[i])
                        && routes[front[i]] == held[0];
                assert(routes.dom().contains(sids[i]));
            }
        }
    }
}

/// A connection is given the route of the only registered identity that it runs
/// under: none where it runs under none, and none where it runs under two.
pub proof fn a_route_has_the_only_identity(routes: Map<Seq<char>, u64>, sids: Seq<Seq<char>>)
    ensures
        chosen_route(routes, sids) matches Ok(route) ==> exists|i: int|
            {
                &&& 0 <= i < sids.len()
                &&& routes.dom().contains(#[trigger] sids[i])
                &&& routes[sids[i]] == route
                &&& forall|j: int|
                    0 <= j < sids.len() && routes.dom().contains(#[trigger] sids[j]) ==> j == i
            },
        chosen_route(routes, sids) == Err::<u64, RouteChoiceError>(RouteChoiceError::RouteMissing)
            <==> forall|i: int| 0 <= i < sids.len() ==> !routes.dom().contains(#[trigger] sids[i]),
        chosen_route(routes, sids) == Err::<u64, RouteChoiceError>(RouteChoiceError::RouteDuplicate)
            <==> exists|i: int, j: int|
            0 <= i < j < sids.len() && routes.dom().contains(#[trigger] sids[i])
                && routes.dom().contains(#[trigger] sids[j]),
{
    registered_are_counted(routes, sids);
    let list = routes_of(routes, sids);
    if list.len() == 1 {
        let i = choose|i: int|
            0 <= i < sids.len() && routes.dom().contains(#[trigger] sids[i]) && routes[sids[i]]
                == list[0];
        assert forall|j: int|
            0 <= j < sids.len() && routes.dom().contains(#[trigger] sids[j]) implies j == i by {
            if j < i {
                assert(routes.dom().contains(sids[j]) && routes.dom().contains(sids[i]));
            } else if i < j {
                assert(routes.dom().contains(sids[i]) && routes.dom().contains(sids[j]));
            }
        }
    }
}

} // verus!
