//! The process-wide registry of listeners: one setup's listeners are opened
//! once, shared by its launches, and never open a port that another holds.

use vstd::prelude::*;

use crate::network_ingress::{
    ProxyAddresses, WindowsNetworkGatewayError, WindowsNetworkRuntimeError,
};
use crate::text;

verus! {

/// Whose listeners they are, and where.
#[derive(Debug)]
pub struct IngressIdentity {
    /// The owner's SID.
    pub owner_sid: String,
    /// The addresses.
    pub addresses: ProxyAddresses,
}

/// Whose listeners they are, and where.
pub struct IdentityModel {
    /// The owner's SID.
    pub owner_sid: Seq<char>,
    /// The addresses.
    pub addresses: ProxyAddresses,
}

impl View for IngressIdentity {
    type V = IdentityModel;

    open spec fn view(&self) -> IdentityModel {
        IdentityModel { owner_sid: self.owner_sid@, addresses: self.addresses }
    }
}

impl IngressIdentity {
    /// Whether two identities are the same.
    pub fn is_same(&self, other: &IngressIdentity) -> (same: bool)
        ensures
            same == (self@ == other@),
    {
        text::same_text(self.owner_sid.as_str(), other.owner_sid.as_str()) && self.addresses
            == other.addresses
    }

    /// A copy.
    pub fn copy(&self) -> (copy: IngressIdentity)
        ensures
            copy@ == self@,
    {
        IngressIdentity { owner_sid: self.owner_sid.as_str().to_owned(), addresses: self.addresses }
    }
}

/// Listeners that are being opened, or that are open under a number.
#[derive(Debug)]
struct Slot {
    identity: IngressIdentity,
    running: Option<u64>,
}

/// Listeners that are being opened, or that are open under a number.
pub struct SlotModel {
    /// Whose, and where.
    pub identity: IdentityModel,
    /// The number, once they are open.
    pub running: Option<u64>,
}

/// What the registry holds.
pub struct SharedModel {
    /// The listeners.
    pub slots: Seq<SlotModel>,
    /// The ports of listeners that are being closed.
    pub retiring: Seq<u16>,
}

/// The registry.
#[derive(Debug)]
pub struct SharedIngressRegistry {
    slots: Vec<Slot>,
    retiring_ports: Vec<u16>,
}

impl Slot {
    spec fn model(self) -> SlotModel {
        SlotModel { identity: self.identity@, running: self.running }
    }
}

impl View for SharedIngressRegistry {
    type V = SharedModel;

    closed spec fn view(&self) -> SharedModel {
        SharedModel {
            slots: Seq::new(self.slots@.len(), |i: int| self.slots@[i].model()),
            retiring: self.retiring_ports@,
        }
    }
}

/// Whether two sets of listeners have no port in common.
pub open spec fn apart(a: ProxyAddresses, b: ProxyAddresses) -> bool {
    !b.uses(a.http_address().port) && !b.uses(a.socks_address().port)
}

impl SharedModel {
    /// Whether no two listeners, open or being opened, have a port in common.
    pub open spec fn wf(self) -> bool {
        forall|i: int, j: int|
            0 <= i < j < self.slots.len() ==> apart(
                #[trigger] self.slots[i].identity.addresses,
                #[trigger] self.slots[j].identity.addresses,
            )
    }

    /// The number of an identity's open listeners.
    pub open spec fn registered(self, identity: IdentityModel) -> Option<u64> {
        registered_in(self.slots, identity)
    }

    /// Whether an identity's listeners are being opened.
    pub open spec fn is_starting(self, identity: IdentityModel) -> bool {
        exists|i: int| 0 <= i < self.slots.len() && is_starting_slot(#[trigger] self.slots[i], identity)
    }

    /// Without an identity's open listeners.
    pub open spec fn without_running(self, identity: IdentityModel) -> SharedModel {
        SharedModel {
            slots: self.slots.filter(|slot: SlotModel| !is_running_slot(slot, identity)),
            retiring: self.retiring,
        }
    }

    /// Without an identity's listeners that are being opened.
    pub open spec fn without_starting(self, identity: IdentityModel) -> SharedModel {
        SharedModel {
            slots: self.slots.filter(|slot: SlotModel| !is_starting_slot(slot, identity)),
            retiring: self.retiring,
        }
    }

    /// With another slot.
    pub open spec fn with_slot(self, identity: IdentityModel, running: Option<u64>) -> SharedModel {
        SharedModel {
            slots: self.slots.push(SlotModel { identity, running }),
            retiring: self.retiring,
        }
    }

    /// The ports that are taken: those of open listeners, of listeners that
    /// are being closed and of listeners that are being opened.
    pub open spec fn ports_in_use(self) -> Seq<u16> {
        slot_ports(self.slots, true) + self.retiring + slot_ports(self.slots, false)
    }

    /// The first port that is taken of those that listeners need.
    pub open spec fn conflict(self, addresses: ProxyAddresses) -> Option<u16> {
        first_used(self.ports_in_use(), addresses)
    }

    /// With the ports of listeners that are being closed.
    pub open spec fn retired(self, identity: IdentityModel) -> SharedModel {
        SharedModel {
            slots: self.without_running(identity).slots,
            retiring: with_port(
                with_port(self.retiring, identity.addresses.http_address().port),
                identity.addresses.socks_address().port,
            ),
        }
    }

    /// Without the ports of listeners that were closed.
    pub open spec fn released(self, addresses: ProxyAddresses) -> SharedModel {
        SharedModel {
            slots: self.slots,
            retiring: self.retiring.filter(|port: u16| !addresses.uses(port)),
        }
    }
}

/// Whether a slot is an identity's open listeners.
pub open spec fn is_running_slot(slot: SlotModel, identity: IdentityModel) -> bool {
    slot.identity == identity && slot.running is Some
}

/// Whether a slot is an identity's listeners that are being opened.
pub open spec fn is_starting_slot(slot: SlotModel, identity: IdentityModel) -> bool {
    slot.identity == identity && slot.running is None
}

/// The number of an identity's open listeners in a list.
pub open spec fn registered_in(slots: Seq<SlotModel>, identity: IdentityModel) -> Option<u64>
    decreases slots.len(),
{
    if slots.len() == 0 {
        None
    } else if is_running_slot(slots[0], identity) {
        slots[0].running
    } else {
        registered_in(slots.skip(1), identity)
    }
}

/// The ports of open listeners, or of listeners that are being opened.
pub open spec fn slot_ports(slots: Seq<SlotModel>, running: bool) -> Seq<u16>
    decreases slots.len(),
{
    if slots.len() == 0 {
        Seq::empty()
    } else {
        let before = slot_ports(slots.drop_last(), running);
        if slots.last().running is Some == running {
            before.push(slots.last().identity.addresses.http_address().port).push(
                slots.last().identity.addresses.socks_address().port,
            )
        } else {
            before
        }
    }
}

/// The first of some ports that listeners need.
pub open spec fn first_used(ports: Seq<u16>, addresses: ProxyAddresses) -> Option<u16>
    decreases ports.len(),
{
    if ports.len() == 0 {
        None
    } else if addresses.uses(ports[0]) {
        Some(ports[0])
    } else {
        first_used(ports.skip(1), addresses)
    }
}

/// Ports with one more, unless it is there.
pub open spec fn with_port(ports: Seq<u16>, port: u16) -> Seq<u16> {
    if ports.contains(port) {
        ports
    } else {
        ports.push(port)
    }
}

/// Listeners stay apart when some are left out.
proof fn filter_stays_apart(slots: Seq<SlotModel>, keep: spec_fn(SlotModel) -> bool)
    requires
        (SharedModel { slots, retiring: Seq::empty() }).wf(),
    ensures
        (SharedModel { slots: slots.filter(keep), retiring: Seq::empty() }).wf(),
        forall|i: int|
            0 <= i < slots.filter(keep).len() ==> keep(#[trigger] slots.filter(keep)[i]) && exists|j: int|
                0 <= j < slots.len() && #[trigger] slots[j] == slots.filter(keep)[i],
    decreases slots.len(),
{
    reveal(Seq::filter);
    if slots.len() > 0 {
        let rest = slots.drop_last();
        assert forall|i: int, j: int| 0 <= i < j < rest.len() implies apart(
            #[trigger] rest[i].identity.addresses,
            #[trigger] rest[j].identity.addresses,
        ) by {
            assert(slots[i] == rest[i] && slots[j] == rest[j]);
        }
        filter_stays_apart(rest, keep);
        let kept = rest.filter(keep);
        let whole = slots.filter(keep);
        assert forall|i: int| 0 <= i < whole.len() implies keep(#[trigger] whole[i]) && exists|j: int|
            0 <= j < slots.len() && #[trigger] slots[j] == whole[i] by {
            if i < kept.len() {
                let j = choose|j: int| 0 <= j < rest.len() && #[trigger] rest[j] == kept[i];
                assert(kept[i] == whole[i]);
                assert(slots[j] == whole[i]);
            } else {
                assert(slots[slots.len() - 1] == whole[i]);
            }
        }
        assert forall|i: int, j: int| 0 <= i < j < whole.len() implies apart(
            #[trigger] whole[i].identity.addresses,
            #[trigger] whole[j].identity.addresses,
        ) by {
            if j < kept.len() {
                assert(kept[i] == whole[i] && kept[j] == whole[j]);
            } else {
                assert(kept[i] == whole[i]);
                let k = choose|k: int| 0 <= k < rest.len() && #[trigger] rest[k] == kept[i];
                assert(slots[k] == whole[i]);
                assert(slots[slots.len() - 1] == whole[j]);
            }
        }
    }
}

/// A free port is none of those in use.
proof fn unused_ports(ports: Seq<u16>, addresses: ProxyAddresses)
    requires
        first_used(ports, addresses) is None,
    ensures
        forall|i: int| 0 <= i < ports.len() ==> !addresses.uses(#[trigger] ports[i]),
    decreases ports.len(),
{
    if ports.len() > 0 {
        unused_ports(ports.skip(1), addresses);
        assert forall|i: int| 0 <= i < ports.len() implies !addresses.uses(#[trigger] ports[i]) by {
            if i > 0 {
                assert(ports.skip(1)[i - 1] == ports[i]);
            }
        }
    }
}

/// A port in use is found.
proof fn used_port_is_found(ports: Seq<u16>, addresses: ProxyAddresses, i: int)
    requires
        0 <= i < ports.len(),
        addresses.uses(ports[i]),
    ensures
        first_used(ports, addresses) matches Some(port) && addresses.uses(port),
    decreases ports.len(),
{
    if !addresses.uses(ports[0]) {
        assert(ports.skip(1)[i - 1] == ports[i]);
        used_port_is_found(ports.skip(1), addresses, i - 1);
    }
}

/// The ports of a slot are among those of its kind.
proof fn ports_hold_slot(slots: Seq<SlotModel>, i: int)
    requires
        0 <= i < slots.len(),
    ensures
        slot_ports(slots, slots[i].running is Some).contains(
            slots[i].identity.addresses.http_address().port,
        ),
        slot_ports(slots, slots[i].running is Some).contains(
            slots[i].identity.addresses.socks_address().port,
        ),
    decreases slots.len(),
{
    let running = slots[i].running is Some;
    let whole = slot_ports(slots, running);
    let before = slot_ports(slots.drop_last(), running);
    if i == slots.len() - 1 {
        assert(whole[before.len() as int] == slots[i].identity.addresses.http_address().port);
        assert(whole[before.len() as int + 1] == slots[i].identity.addresses.socks_address().port);
    } else {
        assert(slots.drop_last()[i] == slots[i]);
        ports_hold_slot(slots.drop_last(), i);
        let http = slots[i].identity.addresses.http_address().port;
        let socks = slots[i].identity.addresses.socks_address().port;
        let a = choose|a: int| 0 <= a < before.len() && before[a] == http;
        let b = choose|b: int| 0 <= b < before.len() && before[b] == socks;
        assert(whole[a] == http);
        assert(whole[b] == socks);
    }
}

/// Listeners without a conflict are apart from all others.
proof fn free_means_apart(model: SharedModel, addresses: ProxyAddresses, i: int)
    requires
        model.conflict(addresses) is None,
        0 <= i < model.slots.len(),
    ensures
        apart(model.slots[i].identity.addresses, addresses),
{
    let ports = model.ports_in_use();
    unused_ports(ports, addresses);
    ports_hold_slot(model.slots, i);
    let running = model.slots[i].running is Some;
    let part = slot_ports(model.slots, running);
    let offset = if running {
        0
    } else {
        slot_ports(model.slots, true).len() + model.retiring.len()
    };
    let http = model.slots[i].identity.addresses.http_address().port;
    let socks = model.slots[i].identity.addresses.socks_address().port;
    let a = choose|a: int| 0 <= a < part.len() && part[a] == http;
    let b = choose|b: int| 0 <= b < part.len() && part[b] == socks;
    assert(ports[offset + a] == http);
    assert(ports[offset + b] == socks);
}

/// Listeners that were opened are apart from all others.
proof fn started_is_apart(model: SharedModel, identity: IdentityModel, i: int)
    requires
        model.wf(),
        model.is_starting(identity),
        0 <= i < model.without_starting(identity).slots.len(),
    ensures
        apart(model.without_starting(identity).slots[i].identity.addresses, identity.addresses),
{
    let keep = |slot: SlotModel| !is_starting_slot(slot, identity);
    let plain = SharedModel { slots: model.slots, retiring: Seq::empty() };
    assert(plain.wf());
    filter_stays_apart(model.slots, keep);
    let kept = model.slots.filter(keep);
    assert(keep(kept[i]));
    let j = choose|j: int| 0 <= j < model.slots.len() && #[trigger] model.slots[j] == kept[i];
    let own = choose|own: int|
        0 <= own < model.slots.len() && is_starting_slot(#[trigger] model.slots[own], identity);
    assert(j != own);
    if j < own {
        assert(apart(model.slots[j].identity.addresses, model.slots[own].identity.addresses));
    } else {
        assert(apart(model.slots[own].identity.addresses, model.slots[j].identity.addresses));
    }
}

/// The next step of getting listeners, or what it came to.
#[derive(Debug)]
pub enum SharedStep<E> {
    /// Look for open listeners.
    Lookup,
    /// See whether they still serve.
    CheckHealth {
        /// Their number.
        ingress: u64,
    },
    /// Forget them: they do not.
    Forget {
        /// Their number.
        ingress: u64,
        /// Why they do not.
        source: WindowsNetworkRuntimeError<E>,
    },
    /// Reserve their opening.
    Reserve,
    /// Wait for someone else to open them.
    WaitForStart,
    /// Open them.
    Start,
    /// Make known what came of opening them.
    Publish {
        /// Their number, or why they could not be opened.
        started: Result<u64, WindowsNetworkGatewayError<E>>,
    },
    /// They are open.
    Done {
        /// Their number.
        ingress: u64,
    },
    /// They cannot be had.
    Failed {
        /// Why.
        error: WindowsNetworkGatewayError<E>,
    },
}

/// What came of a step.
#[derive(Debug)]
pub enum SharedEvent<E> {
    /// The registry is held.
    Locked {
        /// Whether someone broke off amid a change.
        poisoned: bool,
        /// Whether the listeners registered for the identity, if any, are
        /// still held by someone.
        live: bool,
    },
    /// Whether the listeners still serve.
    Health(Result<(), WindowsNetworkRuntimeError<E>>),
    /// The wait is over, and the registry is held.
    Waited {
        /// Whether someone broke off amid a change.
        poisoned: bool,
        /// Whether it took too long.
        timed_out: bool,
    },
    /// The listeners were opened, or not.
    Started(Result<u64, WindowsNetworkGatewayError<E>>),
}

impl<E> SharedStep<E> {
    /// Whether an event can come of the step.
    pub open spec fn expects(self, event: SharedEvent<E>) -> bool {
        match self {
            SharedStep::Lookup
            | SharedStep::Forget { .. }
            | SharedStep::Reserve
            | SharedStep::Publish { .. } => event is Locked,
            SharedStep::CheckHealth { .. } => event is Health,
            SharedStep::WaitForStart => event is Waited,
            SharedStep::Start => event is Started,
            SharedStep::Done { .. } | SharedStep::Failed { .. } => false,
        }
    }

    /// The step after an event.
    pub open spec fn after(
        self,
        event: SharedEvent<E>,
        model: SharedModel,
        identity: IdentityModel,
    ) -> SharedStep<E> {
        match (self, event) {
            (SharedStep::CheckHealth { ingress }, SharedEvent::Health(Ok(_))) =>
                SharedStep::Done { ingress },
            (SharedStep::CheckHealth { ingress }, SharedEvent::Health(Err(source))) =>
                SharedStep::Forget { ingress, source },
            (SharedStep::Start, SharedEvent::Started(started)) => SharedStep::Publish { started },
            (SharedStep::WaitForStart, SharedEvent::Waited { poisoned, timed_out }) => if poisoned {
                SharedStep::Failed { error: WindowsNetworkGatewayError::SharedRegistryPoisoned }
            } else if timed_out && model.is_starting(identity) {
                SharedStep::Failed { error: WindowsNetworkGatewayError::StartupWaitTimeout }
            } else {
                SharedStep::Lookup
            },
            (_, SharedEvent::Locked { poisoned: true, .. }) => SharedStep::Failed {
                error: WindowsNetworkGatewayError::SharedRegistryPoisoned,
            },
            (SharedStep::Lookup, SharedEvent::Locked { live, .. }) => match model.registered(
                identity,
            ) {
                Some(ingress) => if live {
                    SharedStep::CheckHealth { ingress }
                } else {
                    SharedStep::Reserve
                },
                None => SharedStep::Reserve,
            },
            (SharedStep::Forget { source, .. }, SharedEvent::Locked { .. }) => SharedStep::Failed {
                error: WindowsNetworkGatewayError::ExistingRuntime { source },
            },
            (SharedStep::Reserve, SharedEvent::Locked { live, .. }) => if model.registered(
                identity,
            ) is Some && live {
                SharedStep::Lookup
            } else if model.is_starting(identity) {
                SharedStep::WaitForStart
            } else {
                match model.without_running(identity).conflict(identity.addresses) {
                    Some(port) => SharedStep::Failed {
                        error: WindowsNetworkGatewayError::PortOwnedByDifferentSetup { port },
                    },
                    None => SharedStep::Start,
                }
            },
            (SharedStep::Publish { started }, SharedEvent::Locked { .. }) => match started {
                Ok(ingress) => SharedStep::Done { ingress },
                Err(error) => SharedStep::Failed { error },
            },
            (step, _) => step,
        }
    }

    /// What the registry holds after an event.
    pub open spec fn registry_after(
        self,
        event: SharedEvent<E>,
        model: SharedModel,
        identity: IdentityModel,
    ) -> SharedModel {
        match (self, event) {
            (_, SharedEvent::Locked { poisoned: true, .. }) => model,
            (SharedStep::Lookup, SharedEvent::Locked { live, .. }) => if model.registered(
                identity,
            ) is Some && live {
                model
            } else {
                model.without_running(identity)
            },
            (SharedStep::Forget { ingress, .. }, SharedEvent::Locked { live, .. }) => if live
                && model.registered(identity) == Some(ingress) {
                model.without_running(identity)
            } else {
                model
            },
            (SharedStep::Reserve, SharedEvent::Locked { live, .. }) => if model.registered(
                identity,
            ) is Some && live || model.is_starting(identity) {
                model
            } else {
                let free = model.without_running(identity);
                if free.conflict(identity.addresses) is None {
                    free.with_slot(identity, None)
                } else {
                    free
                }
            },
            (SharedStep::Publish { started }, SharedEvent::Locked { .. }) => match started {
                Ok(ingress) => model.without_starting(identity).with_slot(identity, Some(ingress)),
                Err(_) => model.without_starting(identity),
            },
            _ => model,
        }
    }
}

impl SharedIngressRegistry {
    /// Nothing is registered.
    pub fn new() -> (registry: SharedIngressRegistry)
        ensures
            registry@.wf(),
            registry@.slots == Seq::<SlotModel>::empty(),
            registry@.retiring == Seq::<u16>::empty(),
    {
        let registry = SharedIngressRegistry { slots: Vec::new(), retiring_ports: Vec::new() };
        assert(registry@.slots =~= Seq::<SlotModel>::empty());
        registry
    }

    /// The number of an identity's open listeners.
    pub fn registered(&self, identity: &IngressIdentity) -> (ingress: Option<u64>)
        ensures
            ingress == self@.registered(identity@),
    {
        let ghost slots = self@.slots;
        assert(slots.skip(0) =~= slots);
        for i in 0..self.slots.len()
            invariant
                slots == self@.slots,
                registered_in(slots, identity@) == registered_in(slots.skip(i as int), identity@),
        {
            assert(slots.skip(i as int)[0] == slots[i as int]);
            assert(slots.skip(i as int).skip(1) =~= slots.skip(i + 1));
            assert(slots[i as int] == self.slots@[i as int].model());
            if self.slots[i].identity.is_same(identity) && self.slots[i].running.is_some() {
                return self.slots[i].running;
            }
        }
        None
    }

    /// Whether an identity's listeners are being opened.
    pub fn is_starting(&self, identity: &IngressIdentity) -> (starting: bool)
        ensures
            starting == self@.is_starting(identity@),
    {
        let ghost slots = self@.slots;
        for i in 0..self.slots.len()
            invariant
                slots == self@.slots,
                forall|j: int| 0 <= j < i ==> !is_starting_slot(#[trigger] slots[j], identity@),
        {
            assert(slots[i as int] == self.slots@[i as int].model());
            if self.slots[i].running.is_none() && self.slots[i].identity.is_same(identity) {
                assert(is_starting_slot(slots[i as int], identity@));
                return true;
            }
        }
        false
    }

    /// Leaves the open listeners of an identity out, or those that are being
    /// opened.
    fn leave_out(&mut self, identity: &IngressIdentity, running: bool)
        requires
            old(self)@.wf(),
        ensures
            final(self)@.wf(),
            final(self)@ == (if running {
                old(self)@.without_running(identity@)
            } else {
                old(self)@.without_starting(identity@)
            }),
    {
        let ghost before = self@;
        let ghost keep = if running {
            |slot: SlotModel| !is_running_slot(slot, identity@)
        } else {
            |slot: SlotModel| !is_starting_slot(slot, identity@)
        };
        let mut i: usize = 0;
        let ghost mut done: int = 0;
        assert(before.slots.take(0) =~= Seq::<SlotModel>::empty());
        proof {
            reveal(Seq::filter);
            assert(before.slots.skip(0) =~= before.slots);
            assert(self@.slots =~= before.slots.take(0).filter(keep) + before.slots.skip(0));
        }
        while i < self.slots.len()
            invariant
                self.retiring_ports@ == before.retiring,
                0 <= done <= before.slots.len(),
                i == before.slots.take(done).filter(keep).len(),
                self@.slots == before.slots.take(done).filter(keep) + before.slots.skip(done),
                keep == if running {
                    |slot: SlotModel| !is_running_slot(slot, identity@)
                } else {
                    |slot: SlotModel| !is_starting_slot(slot, identity@)
                },
            decreases before.slots.len() - done,
        {
            let ghost kept = before.slots.take(done).filter(keep);
            assert(self@.slots.len() == self.slots@.len());
            assert(done < before.slots.len());
            proof {
                reveal(Seq::filter);
                assert(before.slots.take(done + 1).drop_last() =~= before.slots.take(done));
                assert(self@.slots[i as int] == before.slots[done]);
                assert(self.slots@[i as int].model() == before.slots[done]);
            }
            if self.slots[i].running.is_some() == running && self.slots[i].identity.is_same(identity) {
                let ghost listed = self@.slots;
                self.slots.remove(i);
                proof {
                    assert(self@.slots =~= listed.remove(i as int));
                    assert(listed.remove(i as int) =~= kept + before.slots.skip(done + 1));
                    assert(!keep(before.slots[done]));
                    done = done + 1;
                }
            } else {
                proof {
                    assert(keep(before.slots[done]));
                    assert(before.slots.take(done + 1).filter(keep) =~= kept.push(
                        before.slots[done],
                    ));
                    assert(self@.slots =~= before.slots.take(done + 1).filter(keep)
                        + before.slots.skip(done + 1));
                    done = done + 1;
                }
                i = i + 1;
            }
        }
        proof {
            assert(self@.slots.len() == self.slots@.len());
            assert(done == before.slots.len());
            assert(before.slots.take(done) =~= before.slots);
            assert(self@.slots =~= before.slots.filter(keep));
            let plain = SharedModel { slots: before.slots, retiring: Seq::empty() };
            assert(plain.wf());
            filter_stays_apart(before.slots, keep);
        }
    }

    /// Adds a slot.
    fn add_slot(&mut self, identity: &IngressIdentity, running: Option<u64>)
        ensures
            final(self)@ == old(self)@.with_slot(identity@, running),
    {
        self.slots.push(Slot { identity: identity.copy(), running });
        assert(self@.slots =~= old(self)@.with_slot(identity@, running).slots);
    }

    /// The first port that is taken of those that listeners need.
    pub fn conflict(&self, addresses: ProxyAddresses) -> (port: Option<u16>)
        ensures
            port == self@.conflict(addresses),
    {
        let mut ports: Vec<u16> = Vec::new();
        self.push_slot_ports(&mut ports, true);
        for i in 0..self.retiring_ports.len()
            invariant
                ports@ == slot_ports(self@.slots, true) + self.retiring_ports@.take(i as int),
        {
            ports.push(self.retiring_ports[i]);
            assert(ports@ =~= slot_ports(self@.slots, true) + self.retiring_ports@.take(i + 1));
        }
        assert(self.retiring_ports@.take(self.retiring_ports@.len() as int)
            =~= self.retiring_ports@);
        self.push_slot_ports(&mut ports, false);
        assert(ports@ =~= self@.ports_in_use());
        let ghost all = ports@;
        assert(all.skip(0) =~= all);
        for i in 0..ports.len()
            invariant
                all == ports@,
                first_used(all, addresses) == first_used(all.skip(i as int), addresses),
                all == self@.ports_in_use(),
        {
            assert(all.skip(i as int)[0] == all[i as int]);
            assert(all.skip(i as int).skip(1) =~= all.skip(i + 1));
            let port: u16 = ports[i];
            if port == addresses.http().port || port == addresses.socks().port {
                return Some(port);
            }
        }
        None
    }

    /// Appends the ports of open listeners, or of listeners that are being
    /// opened.
    fn push_slot_ports(&self, ports: &mut Vec<u16>, running: bool)
        ensures
            final(ports)@ == old(ports)@ + slot_ports(self@.slots, running),
    {
        let ghost before = ports@;
        let ghost slots = self@.slots;
        assert(ports@ =~= before + slot_ports(slots.take(0), running));
        for i in 0..self.slots.len()
            invariant
                slots == self@.slots,
                before == old(ports)@,
                ports@ == before + slot_ports(slots.take(i as int), running),
        {
            assert(slots.take(i + 1).drop_last() =~= slots.take(i as int));
            assert(slots[i as int] == self.slots@[i as int].model());
            if self.slots[i].running.is_some() == running {
                ports.push(self.slots[i].identity.addresses.http().port);
                ports.push(self.slots[i].identity.addresses.socks().port);
            }
            assert(ports@ =~= before + slot_ports(slots.take(i + 1), running));
        }
        assert(slots.take(slots.len() as int) =~= slots);
    }

    /// Takes a step towards an identity's listeners.
    pub fn shared<E>(&mut self, identity: &IngressIdentity, step: SharedStep<E>, event: SharedEvent<E>) -> (
    next: SharedStep<E>)
        requires
            old(self)@.wf(),
            step.expects(event),
            step is Publish ==> old(self)@.is_starting(identity@),
        ensures
            final(self)@.wf(),
            next == step.after(event, old(self)@, identity@),
            final(self)@ == step.registry_after(event, old(self)@, identity@),
    {
        match (step, event) {
            (SharedStep::CheckHealth { ingress }, SharedEvent::Health(Ok(_))) => SharedStep::Done {
                ingress,
            },
            (SharedStep::CheckHealth { ingress }, SharedEvent::Health(Err(source))) =>
                SharedStep::Forget { ingress, source },
            (SharedStep::Start, SharedEvent::Started(started)) => SharedStep::Publish { started },
            (SharedStep::WaitForStart, SharedEvent::Waited { poisoned, timed_out }) => {
                match self.wait_for_starting_ingress(identity, poisoned, timed_out) {
                    Ok(_) => SharedStep::Lookup,
                    Err(error) => SharedStep::Failed { error },
                }
            },
            (_, SharedEvent::Locked { poisoned: true, .. }) => SharedStep::Failed {
                error: WindowsNetworkGatewayError::SharedRegistryPoisoned,
            },
            (SharedStep::Lookup, SharedEvent::Locked { live, .. }) => {
                match self.registered(identity) {
                    Some(ingress) => {
                        if live {
                            return SharedStep::CheckHealth { ingress };
                        }
                    },
                    None => {},
                }
                self.leave_out(identity, true);
                SharedStep::Reserve
            },
            (SharedStep::Forget { ingress, source }, SharedEvent::Locked { live, .. }) => {
                let current = match self.registered(identity) {
                    Some(registered) => live && registered == ingress,
                    None => false,
                };
                if current {
                    self.leave_out(identity, true);
                }
                SharedStep::Failed { error: WindowsNetworkGatewayError::ExistingRuntime { source } }
            },
            (SharedStep::Reserve, SharedEvent::Locked { live, .. }) => {
                if self.registered(identity).is_some() && live {
                    return SharedStep::Lookup;
                }
                if self.is_starting(identity) {
                    return SharedStep::WaitForStart;
                }
                self.leave_out(identity, true);
                let ghost free = self@;
                match self.conflict(identity.addresses) {
                    Some(port) => SharedStep::Failed {
                        error: WindowsNetworkGatewayError::PortOwnedByDifferentSetup { port },
                    },
                    None => {
                        self.add_slot(identity, None);
                        proof {
                            assert forall|i: int, j: int| 0 <= i < j < self@.slots.len() implies apart(
                                #[trigger] self@.slots[i].identity.addresses,
                                #[trigger] self@.slots[j].identity.addresses,
                            ) by {
                                assert(self@.slots[i] == free.slots[i]);
                                if j < free.slots.len() {
                                    assert(self@.slots[j] == free.slots[j]);
                                } else {
                                    free_means_apart(free, identity@.addresses, i);
                                }
                            }
                        }
                        SharedStep::Start
                    },
                }
            },
            (SharedStep::Publish { started }, SharedEvent::Locked { .. }) => {
                self.leave_out(identity, false);
                let ghost free = self@;
                match started {
                    Ok(ingress) => {
                        self.add_slot(identity, Some(ingress));
                        proof {
                            assert forall|i: int, j: int| 0 <= i < j < self@.slots.len() implies apart(
                                #[trigger] self@.slots[i].identity.addresses,
                                #[trigger] self@.slots[j].identity.addresses,
                            ) by {
                                assert(self@.slots[i] == free.slots[i]);
                                if j < free.slots.len() {
                                    assert(self@.slots[j] == free.slots[j]);
                                } else {
                                    started_is_apart(old(self)@, identity@, i);
                                }
                            }
                        }
                        SharedStep::Done { ingress }
                    },
                    Err(error) => SharedStep::Failed { error },
                }
            },
            (step, _) => step,
        }
    }

    /// What a wait for someone else's start came to.
    pub fn wait_for_starting_ingress<E>(
        &self,
        identity: &IngressIdentity,
        poisoned: bool,
        timed_out: bool,
    ) -> (result: Result<(), WindowsNetworkGatewayError<E>>)
        ensures
            if poisoned {
                result == Err::<(), WindowsNetworkGatewayError<E>>(
                    WindowsNetworkGatewayError::SharedRegistryPoisoned,
                )
            } else if timed_out && self@.is_starting(identity@) {
                result == Err::<(), WindowsNetworkGatewayError<E>>(
                    WindowsNetworkGatewayError::StartupWaitTimeout,
                )
            } else {
                result is Ok
            },
    {
        if poisoned {
            Err(WindowsNetworkGatewayError::SharedRegistryPoisoned)
        } else if timed_out && self.is_starting(identity) {
            Err(WindowsNetworkGatewayError::StartupWaitTimeout)
        } else {
            Ok(())
        }
    }

    /// Notes that an identity's listeners are being closed.
    pub fn retire(&mut self, identity: &IngressIdentity)
        requires
            old(self)@.wf(),
        ensures
            final(self)@.wf(),
            final(self)@ == old(self)@.retired(identity@),
    {
        self.leave_out(identity, true);
        self.add_retiring(identity.addresses.http().port);
        self.add_retiring(identity.addresses.socks().port);
    }

    /// Adds a port of listeners that are being closed.
    fn add_retiring(&mut self, port: u16)
        ensures
            final(self)@.slots == old(self)@.slots,
            final(self)@.retiring == with_port(old(self)@.retiring, port),
    {
        for i in 0..self.retiring_ports.len()
            invariant
                *self == *old(self),
                forall|j: int| 0 <= j < i ==> self.retiring_ports@[j] != port,
        {
            if self.retiring_ports[i] == port {
                assert(self@.retiring.contains(port)) by {
                    assert(self@.retiring[i as int] == port);
                }
                return;
            }
        }
        assert(!self@.retiring.contains(port));
        self.retiring_ports.push(port);
        assert(self@.slots =~= old(self)@.slots);
    }

    /// Notes that listeners were closed.
    pub fn release(&mut self, addresses: ProxyAddresses)
        requires
            old(self)@.wf(),
        ensures
            final(self)@.wf(),
            final(self)@ == old(self)@.released(addresses),
    {
        let ghost keep = |port: u16| !addresses.uses(port);
        let ghost before = self.retiring_ports@;
        let mut kept: Vec<u16> = Vec::new();
        proof {
            reveal(Seq::filter);
        }
        assert(before.take(0) =~= Seq::<u16>::empty());
        for i in 0..self.retiring_ports.len()
            invariant
                *self == *old(self),
                before == self.retiring_ports@,
                keep == |port: u16| !addresses.uses(port),
                kept@ == before.take(i as int).filter(keep),
        {
            proof {
                reveal(Seq::filter);
                assert(before.take(i + 1).drop_last() =~= before.take(i as int));
            }
            let port: u16 = self.retiring_ports[i];
            if port != addresses.http().port && port != addresses.socks().port {
                kept.push(port);
            }
        }
        assert(before.take(before.len() as int) =~= before);
        self.retiring_ports = kept;
        assert(self@.slots =~= old(self)@.slots);
    }
}

/// Listeners are opened by one caller at a time: while they are being opened,
/// no other caller starts, and callers that find them open share them.
pub proof fn only_one_caller_starts<E>(
    model: SharedModel,
    identity: IdentityModel,
    event: SharedEvent<E>,
)
    requires
        model.is_starting(identity) || (model.registered(identity) is Some && (event
            matches SharedEvent::Locked { live, .. } && live)),
    ensures
        !(SharedStep::<E>::Reserve.after(event, model, identity) is Start),
{
}

/// Listeners whose ports are still being closed are not opened again.
pub proof fn replacement_waits_for_old_listeners<E>(
    model: SharedModel,
    identity: IdentityModel,
    event: SharedEvent<E>,
    i: int,
)
    requires
        0 <= i < model.retiring.len(),
        identity.addresses.uses(model.retiring[i]),
        SharedStep::<E>::Reserve.expects(event),
    ensures
        !(SharedStep::<E>::Reserve.after(event, model, identity) is Start),
        event == (SharedEvent::<E>::Locked { poisoned: false, live: false }) && !model.is_starting(
            identity,
        ) ==> (SharedStep::<E>::Reserve.after(event, model, identity) matches SharedStep::Failed {
            error: WindowsNetworkGatewayError::PortOwnedByDifferentSetup { port },
        } && identity.addresses.uses(port)),
{
    let free = model.without_running(identity);
    let ports = free.ports_in_use();
    let at = slot_ports(free.slots, true).len() + i;
    assert(ports[at] == model.retiring[i]);
    used_port_is_found(ports, identity.addresses, at);
}

/// A slot of someone else stays when an identity's open listeners are left out.
proof fn slots_of_others_stay(slots: Seq<SlotModel>, identity: IdentityModel, i: int)
    requires
        0 <= i < slots.len(),
        slots[i].identity != identity,
    ensures
        slots.filter(|slot: SlotModel| !is_running_slot(slot, identity)).contains(slots[i]),
    decreases slots.len(),
{
    reveal(Seq::filter);
    let keep = |slot: SlotModel| !is_running_slot(slot, identity);
    let kept = slots.filter(keep);
    let before = slots.drop_last().filter(keep);
    if i == slots.len() - 1 {
        assert(kept[before.len() as int] == slots[i]);
    } else {
        slots_of_others_stay(slots.drop_last(), identity, i);
        let j = choose|j: int| 0 <= j < before.len() && before[j] == slots[i];
        assert(kept[j] == slots[i]);
    }
}

/// Listeners are not opened on a port that someone else's listeners, open or
/// being opened, need: the request for them is refused with a port that is
/// taken.
pub proof fn ports_of_others_are_refused<E>(
    model: SharedModel,
    identity: IdentityModel,
    event: SharedEvent<E>,
    i: int,
    port: u16,
)
    requires
        0 <= i < model.slots.len(),
        model.slots[i].identity != identity,
        model.slots[i].identity.addresses.uses(port),
        identity.addresses.uses(port),
        SharedStep::<E>::Reserve.expects(event),
    ensures
        !(SharedStep::<E>::Reserve.after(event, model, identity) is Start),
        (event matches SharedEvent::Locked { poisoned, live } && !poisoned && !(model.registered(
            identity,
        ) is Some && live) && !model.is_starting(identity)) ==> (SharedStep::<E>::Reserve.after(
            event,
            model,
            identity,
        ) matches SharedStep::Failed {
            error: WindowsNetworkGatewayError::PortOwnedByDifferentSetup { port: taken },
        } && identity.addresses.uses(taken)),
{
    let free = model.without_running(identity);
    slots_of_others_stay(model.slots, identity, i);
    let at = choose|at: int| 0 <= at < free.slots.len() && free.slots[at] == model.slots[i];
    match free.conflict(identity.addresses) {
        None => {
            free_means_apart(free, identity.addresses, at);
        },
        Some(taken) => {
            taken_port_is_needed(free.ports_in_use(), identity.addresses);
        },
    }
}

/// A port that is found is one that listeners need.
proof fn taken_port_is_needed(ports: Seq<u16>, addresses: ProxyAddresses)
    requires
        first_used(ports, addresses) is Some,
    ensures
        addresses.uses(first_used(ports, addresses)->0),
    decreases ports.len(),
{
    if !addresses.uses(ports[0]) {
        taken_port_is_needed(ports.skip(1), addresses);
    }
}

/// No port belongs to two listeners that are open or being opened.
pub proof fn a_port_has_one_holder(model: SharedModel, i: int, j: int, port: u16)
    requires
        model.wf(),
        0 <= i < model.slots.len(),
        0 <= j < model.slots.len(),
        model.slots[i].identity.addresses.uses(port),
        model.slots[j].identity.addresses.uses(port),
    ensures
        i == j,
{
    if i < j {
        assert(apart(model.slots[i].identity.addresses, model.slots[j].identity.addresses));
    } else if j < i {
        assert(apart(model.slots[j].identity.addresses, model.slots[i].identity.addresses));
    }
}

/// What is left of a list by filtering is what was in it and is kept.
proof fn kept_slots(slots: Seq<SlotModel>, keep: spec_fn(SlotModel) -> bool, slot: SlotModel)
    ensures
        slots.filter(keep).contains(slot) <==> slots.contains(slot) && keep(slot),
    decreases slots.len(),
{
    reveal(Seq::filter);
    if slots.len() > 0 {
        let front = slots.drop_last();
        let last = slots.last();
        kept_slots(front, keep, slot);
        assert(slots =~= front.push(last));
        let kept = front.filter(keep);
        if front.contains(slot) {
            let i = choose|i: int| 0 <= i < front.len() && front[i] == slot;
            assert(slots[i] == slot);
        }
        if slots.contains(slot) && slot != last {
            let i = choose|i: int| 0 <= i < slots.len() && slots[i] == slot;
            assert(front[i] == slot);
        }
        assert(slots[slots.len() - 1] == last);
        if kept.contains(slot) {
            let i = choose|i: int| 0 <= i < kept.len() && kept[i] == slot;
            assert(kept.push(last)[i] == slot);
        }
        if keep(last) {
            assert(kept.push(last)[kept.len() as int] == last);
            if kept.push(last).contains(slot) && slot != last {
                let i = choose|i: int| 0 <= i < kept.push(last).len() && kept.push(last)[i] == slot;
                assert(kept[i] == slot);
            }
        }
    }
}

/// What is left of ports by filtering is what was among them and is kept.
proof fn kept_ports(ports: Seq<u16>, keep: spec_fn(u16) -> bool, port: u16)
    ensures
        ports.filter(keep).contains(port) <==> ports.contains(port) && keep(port),
    decreases ports.len(),
{
    reveal(Seq::filter);
    if ports.len() > 0 {
        let front = ports.drop_last();
        let last = ports.last();
        kept_ports(front, keep, port);
        let kept = front.filter(keep);
        if front.contains(port) {
            let i = choose|i: int| 0 <= i < front.len() && front[i] == port;
            assert(ports[i] == port);
        }
        if ports.contains(port) && port != last {
            let i = choose|i: int| 0 <= i < ports.len() && ports[i] == port;
            assert(front[i] == port);
        }
        assert(ports[ports.len() - 1] == last);
        if kept.contains(port) {
            let i = choose|i: int| 0 <= i < kept.len() && kept[i] == port;
            assert(kept.push(last)[i] == port);
        }
        if keep(last) {
            assert(kept.push(last)[kept.len() as int] == last);
            if kept.push(last).contains(port) && port != last {
                let i = choose|i: int| 0 <= i < kept.push(last).len() && kept.push(last)[i] == port;
                assert(kept[i] == port);
            }
        }
    }
}

/// Where a listener is registered under a number, a running slot has it, and where
/// none is, no running slot is the identity's.
pub proof fn registered_listeners_run(slots: Seq<SlotModel>, identity: IdentityModel)
    ensures
        registered_in(slots, identity) matches Some(ingress) ==> slots.contains(
            SlotModel { identity, running: Some(ingress) },
        ),
        registered_in(slots, identity) is None ==> forall|i: int|
            0 <= i < slots.len() ==> !((#[trigger] slots[i]).identity == identity
                && slots[i].running is Some),
    decreases slots.len(),
{
    if slots.len() > 0 {
        let rest = slots.skip(1);
        registered_listeners_run(rest, identity);
        if is_running_slot(slots[0], identity) {
            assert(slots[0] == SlotModel { identity, running: Some(slots[0].running->0) });
        } else if registered_in(slots, identity) is Some {
            let slot = SlotModel { identity, running: registered_in(slots, identity) };
            let i = choose|i: int| 0 <= i < rest.len() && rest[i] == slot;
            assert(slots[i + 1] == slot);
        } else {
            assert forall|i: int| 0 <= i < slots.len() implies !((#[trigger] slots[i]).identity
                == identity && slots[i].running is Some) by {
                if i > 0 {
                    assert(rest[i - 1] == slots[i]);
                }
            }
        }
    }
}

/// A step of one setup's listeners never touches those of another: the slots of
/// other identities are after it just what they were before, and so are the ports that
/// are being given up.
pub proof fn listeners_of_others_stay<E>(
    step: SharedStep<E>,
    event: SharedEvent<E>,
    model: SharedModel,
    identity: IdentityModel,
    slot: SlotModel,
)
    requires
        step.expects(event),
        slot.identity != identity,
    ensures
        step.registry_after(event, model, identity).slots.contains(slot) <==> model.slots.contains(
            slot,
        ),
        step.registry_after(event, model, identity).retiring == model.retiring,
{
    let running = |held: SlotModel| !is_running_slot(held, identity);
    let starting = |held: SlotModel| !is_starting_slot(held, identity);
    kept_slots(model.slots, running, slot);
    kept_slots(model.slots, starting, slot);
    pushed_slot(model.slots.filter(running), SlotModel { identity, running: None }, slot);
    if let SharedStep::Publish { started: Ok(ingress) } = step {
        pushed_slot(
            model.slots.filter(starting),
            SlotModel { identity, running: Some(ingress) },
            slot,
        );
    }
}

/// What a list holds with one more behind it.
proof fn pushed_slot(slots: Seq<SlotModel>, own: SlotModel, slot: SlotModel)
    ensures
        slots.push(own).contains(slot) <==> slots.contains(slot) || slot == own,
{
    let more = slots.push(own);
    if slots.contains(slot) {
        let i = choose|i: int| 0 <= i < slots.len() && slots[i] == slot;
        assert(more[i] == slot);
    }
    assert(more[slots.len() as int] == own);
    if more.contains(slot) && slot != own {
        let i = choose|i: int| 0 <= i < more.len() && more[i] == slot;
        assert(slots[i] == slot);
    }
}

/// What a step leaves of the identity's own listeners: starting them reserves a
/// slot, publishing them puts the number that they got in its place or, where they did
/// not start, frees it, and forgetting them leaves none that run.
pub proof fn own_listeners_follow_the_step<E>(
    step: SharedStep<E>,
    event: SharedEvent<E>,
    model: SharedModel,
    identity: IdentityModel,
)
    requires
        step.expects(event),
        model.wf(),
    ensures
        step.after(event, model, identity) is Start ==> step.registry_after(
            event,
            model,
            identity,
        ).is_starting(identity),
        step is Publish && event != (SharedEvent::<E>::Locked { poisoned: true, live: true })
            && event != (SharedEvent::<E>::Locked { poisoned: true, live: false })
            ==> !step.registry_after(event, model, identity).is_starting(identity),
        (step matches SharedStep::Publish { started: Ok(ingress) } && (
        event matches SharedEvent::Locked { poisoned, .. } && !poisoned)) ==> step.registry_after(
            event,
            model,
            identity,
        ).slots.contains(SlotModel { identity, running: Some(step->Publish_started->Ok_0) }),
        step.after(event, model, identity) is Reserve ==> step.registry_after(
            event,
            model,
            identity,
        ).registered(identity) is None,
        (step matches SharedStep::Forget { ingress, .. } && (event matches SharedEvent::Locked {
            poisoned,
            live,
        } && !poisoned && live && model.registered(identity) == Some(ingress)))
            ==> step.registry_after(event, model, identity).registered(identity) is None,
{
    let after = step.registry_after(event, model, identity);
    let running = |held: SlotModel| !is_running_slot(held, identity);
    let starting = |held: SlotModel| !is_starting_slot(held, identity);
    let free = model.slots.filter(running);
    let own = SlotModel { identity, running: None };
    if step.after(event, model, identity) is Start {
        assert(after.slots == free.push(own));
        assert(is_starting_slot(after.slots[free.len() as int], identity));
    }
    if let SharedStep::Publish { started } = step {
        let rest = model.slots.filter(starting);
        if after.is_starting(identity) && after != model {
            let i = choose|i: int|
                0 <= i < after.slots.len() && is_starting_slot(#[trigger] after.slots[i], identity);
            let slot = after.slots[i];
            kept_slots(model.slots, starting, slot);
            if i < rest.len() {
                assert(rest[i] == slot);
                assert(rest.contains(slot));
            }
        }
        if after == model && after.is_starting(identity) {
            let i = choose|i: int|
                0 <= i < model.slots.len() && is_starting_slot(#[trigger] model.slots[i], identity);
            let slot = model.slots[i];
            assert(model.slots.contains(slot));
            if !(event matches SharedEvent::Locked { poisoned, .. } && poisoned) {
                if let Ok(ingress) = started {
                    let held = SlotModel { identity, running: Some(ingress) };
                    assert(after.slots == rest.push(held));
                    pushed_slot(rest, held, slot);
                } else {
                    assert(after.slots == rest);
                }
                kept_slots(model.slots, starting, slot);
            }
        }
        if let Ok(ingress) = started {
            let held = SlotModel { identity, running: Some(ingress) };
            pushed_slot(rest, held, held);
        }
    }
    if after.slots == free {
        registered_listeners_run(free, identity);
        if after.registered(identity) is Some {
            let slot = SlotModel { identity, running: after.registered(identity) };
            kept_slots(model.slots, running, slot);
        }
    }
    if step is Lookup && after == model {
        registered_listeners_run(model.slots, identity);
    }
}

/// Giving listeners up leaves none of the identity's that run and holds both of
/// their ports; letting ports go frees exactly those of the addresses given.
pub proof fn given_up_ports_are_held(
    model: SharedModel,
    identity: IdentityModel,
    addresses: ProxyAddresses,
    port: u16,
    slot: SlotModel,
)
    ensures
        model.retired(identity).retiring.contains(port) <==> model.retiring.contains(port)
            || identity.addresses.uses(port),
        model.retired(identity).slots.contains(slot) <==> model.slots.contains(slot) && !(
        slot.identity == identity && slot.running is Some),
        model.released(addresses).retiring.contains(port) <==> model.retiring.contains(port)
            && !addresses.uses(port),
        model.released(addresses).slots == model.slots,
{
    let http = identity.addresses.http_address().port;
    let socks = identity.addresses.socks_address().port;
    let first = with_port(model.retiring, http);
    added_port(model.retiring, http, port);
    added_port(first, socks, port);
    kept_slots(model.slots, |held: SlotModel| !is_running_slot(held, identity), slot);
    kept_ports(model.retiring, |held: u16| !addresses.uses(held), port);
}

/// What ports hold with one more.
proof fn added_port(ports: Seq<u16>, own: u16, port: u16)
    ensures
        with_port(ports, own).contains(port) <==> ports.contains(port) || port == own,
{
    let more = ports.push(own);
    assert(more[ports.len() as int] == own);
    if ports.contains(port) {
        let i = choose|i: int| 0 <= i < ports.len() && ports[i] == port;
        assert(more[i] == port);
    }
    if more.contains(port) && port != own {
        let i = choose|i: int| 0 <= i < more.len() && more[i] == port;
        assert(ports[i] == port);
    }
}

/// What a step of getting the shared listeners comes from: listeners are given out
/// only where they are healthy or were just started, by the number that they are
/// registered with or got; they are started only where none of the identity's are
/// starting; and each failure tells what it was.
pub proof fn shared_steps_follow<E>(
    step: SharedStep<E>,
    event: SharedEvent<E>,
    model: SharedModel,
    identity: IdentityModel,
)
    requires
        step.expects(event),
    ensures
        match step.after(event, model, identity) {
            SharedStep::Done { ingress } => step == (SharedStep::<E>::CheckHealth { ingress }) && (
            event matches SharedEvent::Health(health) && health is Ok) || step == (
            SharedStep::<E>::Publish { started: Ok(ingress) }) && (event matches SharedEvent::Locked {
                poisoned,
                ..
            } && !poisoned),
            SharedStep::CheckHealth { ingress } => step is Lookup && model.registered(identity)
                == Some(ingress) && event == (SharedEvent::<E>::Locked {
                poisoned: false,
                live: true,
            }),
            SharedStep::Forget { ingress, source } => step == (SharedStep::<E>::CheckHealth {
                ingress,
            }) && event == SharedEvent::Health(Err::<(), WindowsNetworkRuntimeError<E>>(source)),
            SharedStep::Reserve => step is Lookup && (event matches SharedEvent::Locked {
                poisoned,
                live,
            } && !poisoned && !(live && model.registered(identity) is Some)),
            SharedStep::WaitForStart => step is Reserve && model.is_starting(identity),
            SharedStep::Start => step is Reserve && !model.is_starting(identity)
                && model.without_running(identity).conflict(identity.addresses) is None,
            SharedStep::Lookup => (step is WaitForStart && (event matches SharedEvent::Waited {
                poisoned,
                timed_out,
            } && !poisoned && !(timed_out && model.is_starting(identity)))) || step is Reserve
                && model.registered(identity) is Some && event == (SharedEvent::<E>::Locked {
                poisoned: false,
                live: true,
            }),
            SharedStep::Publish { started } => step is Start && event == SharedEvent::Started(
                started,
            ),
            SharedStep::Failed { error } => (error is SharedRegistryPoisoned && ((
            event matches SharedEvent::Locked { poisoned, .. } && poisoned) || (
            event matches SharedEvent::Waited { poisoned, .. } && poisoned))) || (error is StartupWaitTimeout && step is WaitForStart
                && model.is_starting(identity)) || (error matches WindowsNetworkGatewayError::ExistingRuntime {
                source,
            } && (step matches SharedStep::Forget { source: cause, .. } && cause == source)) || (
            error matches WindowsNetworkGatewayError::PortOwnedByDifferentSetup { port } && step
                is Reserve && identity.addresses.uses(port)) || step == (SharedStep::<
                E,
            >::Publish { started: Err(error) }),
        },
{
    if step is Reserve {
        let ports = model.without_running(identity).ports_in_use();
        if first_used(ports, identity.addresses) is Some {
            taken_port_is_needed(ports, identity.addresses);
        }
    }
}

} // verus!
