//! The proxy's listeners: their addresses, who may open them, and what
//! happens to their connections.

use vstd::prelude::*;

use crate::network_attribution::{SocketV4, WindowsNetworkAttributionError};
use crate::network_routes::RouteChoiceError;

verus! {

/// The version of Winsock that is asked for.
pub const WINSOCK_VERSION_2_2: u16 = 0x0202;

/// How many connections may wait to be traced at once.
pub const MAX_PRE_ATTRIBUTION_CONNECTIONS: usize = 256;

/// How many milliseconds are waited for a start by someone else.
pub const INGRESS_STARTUP_WAIT_MILLISECONDS: u64 = 15_000;

/// The address of this machine for itself.
pub const LOCALHOST: u32 = 0x7f00_0001;

/// What a listener speaks.
#[derive(Clone, Copy, Debug, PartialEq, Eq, Structural)]
pub enum ProxyProtocol {
    /// HTTP.
    Http,
    /// SOCKS, version 5.
    Socks5,
}

impl ProxyProtocol {
    /// The name.
    pub fn label(self) -> (label: &'static str)
        ensures
            label@ == (if self is Http {
                "HTTP"@
            } else {
                "SOCKS5"@
            }),
    {
        match self {
            ProxyProtocol::Http => "HTTP",
            ProxyProtocol::Socks5 => "SOCKS5",
        }
    }

    /// Whether a connection that starts with a byte speaks the protocol.
    pub open spec fn starts_with(self, first: u8) -> bool {
        (self is Socks5) == (first == 5)
    }
}

/// A failure inside the listeners' own thread, with the causes as the system
/// reports them.
#[derive(Debug)]
pub enum WindowsNetworkRuntimeFailure<E> {
    /// The runtime could not be set up.
    RuntimeConstruction {
        /// The cause.
        source: E,
    },
    /// A listener could not be taken over.
    ListenerRegistration {
        /// Which.
        protocol: ProxyProtocol,
        /// The cause.
        source: E,
    },
    /// No one waits for the start any more.
    StartupReceiverClosed,
    /// A listener failed.
    Listener {
        /// Which.
        protocol: ProxyProtocol,
        /// The cause.
        source: E,
    },
    /// Serving a connection panicked.
    ConnectionTaskPanicked,
}

/// Why the listeners of a running child are not available.
#[derive(Debug)]
pub enum WindowsNetworkRuntimeError<E> {
    /// Whoever held the thread broke off amid a change.
    StatePoisoned,
    /// The thread failed.
    Failed {
        /// Why.
        source: WindowsNetworkRuntimeFailure<E>,
    },
    /// The thread ended before the child.
    StoppedBeforeProcess,
    /// The thread panicked.
    Panicked,
}

/// Why listeners cannot be had.
#[derive(Debug)]
#[allow(inconsistent_fields)]
pub enum WindowsNetworkGatewayError<E> {
    /// There are not two ports that differ and are not zero.
    InvalidProxyPorts {
        /// The ports.
        ports: Vec<u16>,
    },
    /// Whoever held the registry broke off amid a change.
    SharedRegistryPoisoned,
    /// A port belongs to another setup.
    PortOwnedByDifferentSetup {
        /// The port.
        port: u16,
    },
    /// Winsock could not be initialized.
    WinsockInitialization {
        /// The native status.
        code: i32,
    },
    /// Winsock has another version.
    WinsockVersion {
        /// The version.
        actual: u16,
    },
    /// A socket could not be created.
    ListenerSocket {
        /// For which listener.
        protocol: ProxyProtocol,
        /// The native status.
        code: i32,
    },
    /// A listener could not ask for its address alone.
    ListenerExclusiveAddress {
        /// Which listener.
        protocol: ProxyProtocol,
        /// The native status.
        code: i32,
    },
    /// A listener could not be bound.
    ListenerBind {
        /// Which listener.
        protocol: ProxyProtocol,
        /// The address.
        address: SocketV4,
        /// The native status.
        code: i32,
    },
    /// A listener could not listen.
    ListenerListen {
        /// Which listener.
        protocol: ProxyProtocol,
        /// The address.
        address: SocketV4,
        /// The native status.
        code: i32,
    },
    /// A listener could not be switched to answer at once.
    ListenerNonblocking {
        /// Which listener.
        protocol: ProxyProtocol,
        /// The address.
        address: SocketV4,
        /// The cause.
        source: E,
    },
    /// The thread could not be started.
    ThreadSpawn {
        /// The cause.
        source: E,
    },
    /// The thread failed while it started.
    RuntimeStartup {
        /// Why.
        source: WindowsNetworkRuntimeFailure<E>,
    },
    /// The thread ended without a word.
    StartupChannelClosed,
    /// A start by someone else took too long.
    StartupWaitTimeout,
    /// The thread panicked while it started.
    StartupThreadPanicked,
    /// The listeners that are there already failed.
    ExistingRuntime {
        /// Why.
        source: WindowsNetworkRuntimeError<E>,
    },
    /// The gateway could not be set up.
    GatewayInitialization {
        /// The cause.
        source: E,
    },
}

/// Where the two listeners are.
#[derive(Clone, Copy, Debug, PartialEq, Eq, Structural)]
pub struct ProxyAddresses {
    http: SocketV4,
    socks: SocketV4,
}

/// Whether ports can be the listeners'.
pub open spec fn valid_ports(ports: Seq<u16>) -> bool {
    ports.len() == 2 && ports[0] != 0 && ports[1] != 0 && ports[0] != ports[1]
}

impl ProxyAddresses {
    /// The HTTP listener's address.
    pub closed spec fn http_address(self) -> SocketV4 {
        self.http
    }

    /// The SOCKS listener's address.
    pub closed spec fn socks_address(self) -> SocketV4 {
        self.socks
    }

    /// Whether one of the listeners has a port.
    pub open spec fn uses(self, port: u16) -> bool {
        port == self.http_address().port || port == self.socks_address().port
    }

    /// The first port is the HTTP listener's, the second the SOCKS listener's,
    /// both on loopback.
    pub fn from_setup_ports<E>(ports: &[u16]) -> (addresses: Result<
        ProxyAddresses,
        WindowsNetworkGatewayError<E>,
    >)
        ensures
            match addresses {
                Ok(both) => valid_ports(ports@) && both.http_address() == (SocketV4 {
                    address: LOCALHOST,
                    port: ports@[0],
                }) && both.socks_address() == (SocketV4 { address: LOCALHOST, port: ports@[1] }),
                Err(error) => !valid_ports(ports@) && (error
                    matches WindowsNetworkGatewayError::InvalidProxyPorts { ports: refused }
                    && refused@ == ports@),
            },
    {
        if ports.len() != 2 || ports[0] == 0 || ports[1] == 0 || ports[0] == ports[1] {
            let mut refused: Vec<u16> = Vec::new();
            for i in 0..ports.len()
                invariant
                    refused@ == ports@.take(i as int),
            {
                refused.push(ports[i]);
                assert(refused@ =~= ports@.take(i + 1));
            }
            assert(ports@.take(ports@.len() as int) =~= ports@);
            return Err(WindowsNetworkGatewayError::InvalidProxyPorts { ports: refused });
        }
        Ok(
            ProxyAddresses {
                http: SocketV4 { address: LOCALHOST, port: ports[0] },
                socks: SocketV4 { address: LOCALHOST, port: ports[1] },
            },
        )
    }

    /// The HTTP listener's address.
    pub fn http(self) -> (address: SocketV4)
        ensures
            address == self.http_address(),
    {
        self.http
    }

    /// The SOCKS listener's address.
    pub fn socks(self) -> (address: SocketV4)
        ensures
            address == self.socks_address(),
    {
        self.socks
    }
}

/// The state of the listeners' thread.
#[derive(Debug)]
pub enum ThreadState<E> {
    /// Whoever held it broke off amid a change.
    Poisoned,
    /// It is gone.
    Missing,
    /// It runs.
    Running,
    /// It ended, or failed.
    Ended(Result<(), WindowsNetworkRuntimeFailure<E>>),
    /// It panicked.
    Panicked,
}

/// Whether listeners still serve.
pub open spec fn health_of<E>(state: ThreadState<E>) -> Option<WindowsNetworkRuntimeError<E>> {
    match state {
        ThreadState::Poisoned => Some(WindowsNetworkRuntimeError::StatePoisoned),
        ThreadState::Missing => Some(WindowsNetworkRuntimeError::StoppedBeforeProcess),
        ThreadState::Running => None,
        ThreadState::Ended(Ok(_)) => Some(WindowsNetworkRuntimeError::StoppedBeforeProcess),
        ThreadState::Ended(Err(source)) => Some(WindowsNetworkRuntimeError::Failed { source }),
        ThreadState::Panicked => Some(WindowsNetworkRuntimeError::Panicked),
    }
}

/// Refuses listeners whose thread does not run.
pub fn check_health<E>(state: ThreadState<E>) -> (health: Result<(), WindowsNetworkRuntimeError<E>>)
    ensures
        match health {
            Ok(_) => health_of(state) is None,
            Err(error) => health_of(state) == Some(error),
        },
{
    match state {
        ThreadState::Poisoned => Err(WindowsNetworkRuntimeError::StatePoisoned),
        ThreadState::Missing => Err(WindowsNetworkRuntimeError::StoppedBeforeProcess),
        ThreadState::Running => Ok(()),
        ThreadState::Ended(Ok(_)) => Err(WindowsNetworkRuntimeError::StoppedBeforeProcess),
        ThreadState::Ended(Err(source)) => Err(WindowsNetworkRuntimeError::Failed { source }),
        ThreadState::Panicked => Err(WindowsNetworkRuntimeError::Panicked),
    }
}

/// What the listeners' thread said about its start.
#[derive(Debug)]
pub enum StartupReport<E> {
    /// It is ready.
    Ready,
    /// It failed.
    Failed(WindowsNetworkRuntimeFailure<E>),
    /// It ended without a word, and how.
    Silent(ThreadEnd<E>),
}

/// How the listeners' thread ended.
#[derive(Debug)]
pub enum ThreadEnd<E> {
    /// It ended, or failed.
    Ended(Result<(), WindowsNetworkRuntimeFailure<E>>),
    /// It panicked.
    Panicked,
}

/// What a start of the thread came to.
pub fn startup_outcome<E>(report: StartupReport<E>) -> (result: Result<
    (),
    WindowsNetworkGatewayError<E>,
>)
    ensures
        match report {
            StartupReport::Ready => result is Ok,
            StartupReport::Failed(source) => result == Err::<(), WindowsNetworkGatewayError<E>>(
                WindowsNetworkGatewayError::RuntimeStartup { source },
            ),
            StartupReport::Silent(ThreadEnd::Ended(Ok(_))) => result == Err::<
                (),
                WindowsNetworkGatewayError<E>,
            >(WindowsNetworkGatewayError::StartupChannelClosed),
            StartupReport::Silent(ThreadEnd::Ended(Err(source))) => result == Err::<
                (),
                WindowsNetworkGatewayError<E>,
            >(WindowsNetworkGatewayError::RuntimeStartup { source }),
            StartupReport::Silent(ThreadEnd::Panicked) => result == Err::<
                (),
                WindowsNetworkGatewayError<E>,
            >(WindowsNetworkGatewayError::StartupThreadPanicked),
        },
{
    match report {
        StartupReport::Ready => Ok(()),
        StartupReport::Failed(source) => Err(
            WindowsNetworkGatewayError::RuntimeStartup { source },
        ),
        StartupReport::Silent(ThreadEnd::Ended(Ok(_))) => Err(
            WindowsNetworkGatewayError::StartupChannelClosed,
        ),
        StartupReport::Silent(ThreadEnd::Ended(Err(source))) => Err(
            WindowsNetworkGatewayError::RuntimeStartup { source },
        ),
        StartupReport::Silent(ThreadEnd::Panicked) => Err(
            WindowsNetworkGatewayError::StartupThreadPanicked,
        ),
    }
}

/// Refuses a Winsock that does not start or has another version.
pub fn initialize_winsock<E>(status: i32, version: u16) -> (result: Result<
    (),
    WindowsNetworkGatewayError<E>,
>)
    ensures
        if status != 0 {
            result == Err::<(), WindowsNetworkGatewayError<E>>(
                WindowsNetworkGatewayError::WinsockInitialization { code: status },
            )
        } else if version != WINSOCK_VERSION_2_2 {
            result == Err::<(), WindowsNetworkGatewayError<E>>(
                WindowsNetworkGatewayError::WinsockVersion { actual: version },
            )
        } else {
            result is Ok
        },
{
    if status != 0 {
        Err(WindowsNetworkGatewayError::WinsockInitialization { code: status })
    } else if version != WINSOCK_VERSION_2_2 {
        Err(WindowsNetworkGatewayError::WinsockVersion { actual: version })
    } else {
        Ok(())
    }
}

/// The next step of opening a listener, or what it came to.
#[derive(Debug)]
pub enum ListenerStep<E> {
    /// Create the socket.
    CreateSocket,
    /// Ask for the address alone.
    RequireExclusive,
    /// Bind it.
    Bind,
    /// Let it listen.
    Listen,
    /// Let it answer at once.
    SetNonblocking,
    /// It is open.
    Open,
    /// It could not be opened; a socket that was created is closed.
    Failed {
        /// Why.
        error: WindowsNetworkGatewayError<E>,
    },
}

/// What came of a step: a native status, or for the last step the cause.
#[derive(Debug)]
pub enum ListenerEvent<E> {
    /// It succeeded.
    Done,
    /// It failed with a native status.
    Refused(i32),
    /// It failed for a cause.
    Failed(E),
}

impl<E> ListenerStep<E> {
    /// Whether an event can come of the step.
    pub open spec fn expects(self, event: ListenerEvent<E>) -> bool {
        match self {
            ListenerStep::CreateSocket
            | ListenerStep::RequireExclusive
            | ListenerStep::Bind
            | ListenerStep::Listen => !(event is Failed),
            ListenerStep::SetNonblocking => !(event is Refused),
            ListenerStep::Open | ListenerStep::Failed { .. } => false,
        }
    }

    /// The step after an event.
    pub open spec fn after(
        self,
        event: ListenerEvent<E>,
        protocol: ProxyProtocol,
        address: SocketV4,
    ) -> ListenerStep<E> {
        match (self, event) {
            (ListenerStep::CreateSocket, ListenerEvent::Done) => ListenerStep::RequireExclusive,
            (ListenerStep::RequireExclusive, ListenerEvent::Done) => ListenerStep::Bind,
            (ListenerStep::Bind, ListenerEvent::Done) => ListenerStep::Listen,
            (ListenerStep::Listen, ListenerEvent::Done) => ListenerStep::SetNonblocking,
            (ListenerStep::SetNonblocking, ListenerEvent::Done) => ListenerStep::Open,
            (ListenerStep::CreateSocket, ListenerEvent::Refused(code)) => ListenerStep::Failed {
                error: WindowsNetworkGatewayError::ListenerSocket { protocol, code },
            },
            (ListenerStep::RequireExclusive, ListenerEvent::Refused(code)) =>
                ListenerStep::Failed {
                error: WindowsNetworkGatewayError::ListenerExclusiveAddress { protocol, code },
            },
            (ListenerStep::Bind, ListenerEvent::Refused(code)) => ListenerStep::Failed {
                error: WindowsNetworkGatewayError::ListenerBind { protocol, address, code },
            },
            (ListenerStep::Listen, ListenerEvent::Refused(code)) => ListenerStep::Failed {
                error: WindowsNetworkGatewayError::ListenerListen { protocol, address, code },
            },
            (ListenerStep::SetNonblocking, ListenerEvent::Failed(source)) => ListenerStep::Failed {
                error: WindowsNetworkGatewayError::ListenerNonblocking {
                    protocol,
                    address,
                    source,
                },
            },
            (step, _) => step,
        }
    }

    /// Takes the step after an event.
    pub fn advance(
        self,
        event: ListenerEvent<E>,
        protocol: ProxyProtocol,
        address: SocketV4,
    ) -> (step: ListenerStep<E>)
        requires
            self.expects(event),
        ensures
            step == self.after(event, protocol, address),
    {
        match (self, event) {
            (ListenerStep::CreateSocket, ListenerEvent::Done) => ListenerStep::RequireExclusive,
            (ListenerStep::RequireExclusive, ListenerEvent::Done) => ListenerStep::Bind,
            (ListenerStep::Bind, ListenerEvent::Done) => ListenerStep::Listen,
            (ListenerStep::Listen, ListenerEvent::Done) => ListenerStep::SetNonblocking,
            (ListenerStep::SetNonblocking, ListenerEvent::Done) => ListenerStep::Open,
            (ListenerStep::CreateSocket, ListenerEvent::Refused(code)) => ListenerStep::Failed {
                error: WindowsNetworkGatewayError::ListenerSocket { protocol, code },
            },
            (ListenerStep::RequireExclusive, ListenerEvent::Refused(code)) =>
                ListenerStep::Failed {
                error: WindowsNetworkGatewayError::ListenerExclusiveAddress { protocol, code },
            },
            (ListenerStep::Bind, ListenerEvent::Refused(code)) => ListenerStep::Failed {
                error: WindowsNetworkGatewayError::ListenerBind { protocol, address, code },
            },
            (ListenerStep::Listen, ListenerEvent::Refused(code)) => ListenerStep::Failed {
                error: WindowsNetworkGatewayError::ListenerListen { protocol, address, code },
            },
            (ListenerStep::SetNonblocking, ListenerEvent::Failed(source)) => ListenerStep::Failed {
                error: WindowsNetworkGatewayError::ListenerNonblocking {
                    protocol,
                    address,
                    source,
                },
            },
            (step, _) => step,
        }
    }
}

/// A listener is bound only after it asked for its address alone.
pub proof fn listeners_are_exclusive<E>(
    step: ListenerStep<E>,
    event: ListenerEvent<E>,
    protocol: ProxyProtocol,
    address: SocketV4,
)
    requires
        step.expects(event),
    ensures
        step.after(event, protocol, address) is Bind ==> step is RequireExclusive && event is Done,
        step.after(event, protocol, address) is Listen ==> step is Bind && event is Done,
        step.after(event, protocol, address) is Open ==> step is SetNonblocking && event is Done,
{
}

/// The next step of the listeners' thread, or how it ended.
#[derive(Debug)]
pub enum IngressStep<E> {
    /// Set the runtime up.
    BuildRuntime,
    /// Take a listener over.
    Register {
        /// Which.
        protocol: ProxyProtocol,
    },
    /// Say that it is ready.
    ReportReady,
    /// Say that it failed, and end.
    ReportFailure {
        /// Why.
        failure: WindowsNetworkRuntimeFailure<E>,
    },
    /// Wait for something to happen.
    Serve,
    /// Serve a new connection, if there is room for it, and go on.
    Accept {
        /// From which listener.
        protocol: ProxyProtocol,
    },
    /// Break every connection off, and end.
    Drain,
    /// It ended.
    Ended,
    /// It failed.
    Failed {
        /// Why.
        failure: WindowsNetworkRuntimeFailure<E>,
    },
}

/// What came of a step of the listeners' thread.
#[derive(Debug)]
pub enum IngressEvent<E> {
    /// It succeeded, or failed for a cause.
    Done(Result<(), E>),
    /// Someone, or no one, took the report.
    Reported(bool),
    /// Asked to end.
    Shutdown,
    /// A listener accepted a connection, or failed.
    Accepted {
        /// Which listener.
        protocol: ProxyProtocol,
        /// What came of it.
        result: Result<(), E>,
    },
    /// Serving a connection ended.
    Completed {
        /// Whether it panicked or was broken off.
        failed: bool,
    },
}

impl<E> IngressStep<E> {
    /// Whether an event can come of the step.
    pub open spec fn expects(self, event: IngressEvent<E>) -> bool {
        match self {
            IngressStep::BuildRuntime | IngressStep::Register { .. } | IngressStep::Accept { .. }
            | IngressStep::Drain => event is Done,
            IngressStep::ReportReady | IngressStep::ReportFailure { .. } => event is Reported,
            IngressStep::Serve => event is Shutdown || event is Accepted || event is Completed,
            IngressStep::Ended | IngressStep::Failed { .. } => false,
        }
    }

    /// The step after an event.
    pub open spec fn after(self, event: IngressEvent<E>) -> IngressStep<E> {
        match (self, event) {
            (IngressStep::BuildRuntime, IngressEvent::Done(Ok(_))) => IngressStep::Register {
                protocol: ProxyProtocol::Http,
            },
            (IngressStep::BuildRuntime, IngressEvent::Done(Err(source))) =>
                IngressStep::ReportFailure {
                failure: WindowsNetworkRuntimeFailure::RuntimeConstruction { source },
            },
            (IngressStep::Register { protocol }, IngressEvent::Done(Ok(_))) => if protocol is Http {
                IngressStep::Register { protocol: ProxyProtocol::Socks5 }
            } else {
                IngressStep::ReportReady
            },
            (IngressStep::Register { protocol }, IngressEvent::Done(Err(source))) =>
                IngressStep::ReportFailure {
                failure: WindowsNetworkRuntimeFailure::ListenerRegistration { protocol, source },
            },
            (IngressStep::ReportReady, IngressEvent::Reported(taken)) => if taken {
                IngressStep::Serve
            } else {
                IngressStep::Failed {
                    failure: WindowsNetworkRuntimeFailure::StartupReceiverClosed,
                }
            },
            (IngressStep::ReportFailure { .. }, IngressEvent::Reported(_)) => IngressStep::Ended,
            (IngressStep::Serve, IngressEvent::Shutdown) => IngressStep::Drain,
            (IngressStep::Serve, IngressEvent::Accepted { protocol, result: Ok(_) }) =>
                IngressStep::Accept { protocol },
            (IngressStep::Serve, IngressEvent::Accepted { protocol, result: Err(source) }) =>
                IngressStep::Failed {
                failure: WindowsNetworkRuntimeFailure::Listener { protocol, source },
            },
            (IngressStep::Serve, IngressEvent::Completed { failed }) => if failed {
                IngressStep::Failed {
                    failure: WindowsNetworkRuntimeFailure::ConnectionTaskPanicked,
                }
            } else {
                IngressStep::Serve
            },
            (IngressStep::Accept { .. }, _) => IngressStep::Serve,
            (IngressStep::Drain, _) => IngressStep::Ended,
            (step, _) => step,
        }
    }

    /// Takes the step after an event.
    pub fn advance(self, event: IngressEvent<E>) -> (step: IngressStep<E>)
        requires
            self.expects(event),
        ensures
            step == self.after(event),
    {
        match (self, event) {
            (IngressStep::BuildRuntime, IngressEvent::Done(Ok(_))) => IngressStep::Register {
                protocol: ProxyProtocol::Http,
            },
            (IngressStep::BuildRuntime, IngressEvent::Done(Err(source))) =>
                IngressStep::ReportFailure {
                failure: WindowsNetworkRuntimeFailure::RuntimeConstruction { source },
            },
            (IngressStep::Register { protocol }, IngressEvent::Done(Ok(_))) => match protocol {
                ProxyProtocol::Http => IngressStep::Register { protocol: ProxyProtocol::Socks5 },
                ProxyProtocol::Socks5 => IngressStep::ReportReady,
            },
            (IngressStep::Register { protocol }, IngressEvent::Done(Err(source))) =>
                IngressStep::ReportFailure {
                failure: WindowsNetworkRuntimeFailure::ListenerRegistration { protocol, source },
            },
            (IngressStep::ReportReady, IngressEvent::Reported(taken)) => if taken {
                IngressStep::Serve
            } else {
                IngressStep::Failed {
                    failure: WindowsNetworkRuntimeFailure::StartupReceiverClosed,
                }
            },
            (IngressStep::ReportFailure { .. }, IngressEvent::Reported(_)) => IngressStep::Ended,
            (IngressStep::Serve, IngressEvent::Shutdown) => IngressStep::Drain,
            (IngressStep::Serve, IngressEvent::Accepted { protocol, result: Ok(_) }) =>
                IngressStep::Accept { protocol },
            (IngressStep::Serve, IngressEvent::Accepted { protocol, result: Err(source) }) =>
                IngressStep::Failed {
                failure: WindowsNetworkRuntimeFailure::Listener { protocol, source },
            },
            (IngressStep::Serve, IngressEvent::Completed { failed }) => if failed {
                IngressStep::Failed {
                    failure: WindowsNetworkRuntimeFailure::ConnectionTaskPanicked,
                }
            } else {
                IngressStep::Serve
            },
            (IngressStep::Accept { .. }, _) => IngressStep::Serve,
            (IngressStep::Drain, _) => IngressStep::Ended,
            (step, _) => step,
        }
    }
}

/// The thread says that it is ready only with both listeners taken over, and
/// accepts connections only after it said so.
pub proof fn serves_only_when_ready<E>(step: IngressStep<E>, event: IngressEvent<E>)
    requires
        step.expects(event),
    ensures
        step.after(event) is ReportReady ==> step == (IngressStep::<E>::Register {
            protocol: ProxyProtocol::Socks5,
        }) && (event matches IngressEvent::Done(result) && result is Ok),
        step.after(event) is Serve ==> step is Serve || step is Accept || step is ReportReady
            && event == IngressEvent::<E>::Reported(true),
        step.after(event) is Accept ==> step is Serve,
{
}

/// Why a connection is not served.
#[derive(Debug)]
pub enum WindowsNetworkIngressError<E> {
    /// An address could not be read.
    Address {
        /// Whether it is the connecting end's.
        peer: bool,
        /// The cause.
        source: E,
    },
    /// It could not be traced.
    Attribution(WindowsNetworkAttributionError),
    /// It belongs to no launch, or to several.
    Route(RouteChoiceError),
    /// It said nothing in time.
    ProtocolTimeout {
        /// On which listener.
        protocol: ProxyProtocol,
    },
    /// What it said could not be read.
    ProtocolRead {
        /// On which listener.
        protocol: ProxyProtocol,
        /// The cause.
        source: E,
    },
    /// It speaks another protocol.
    ProtocolMismatch {
        /// On which listener.
        protocol: ProxyProtocol,
    },
    /// The bridge to the gateway could not be opened.
    GatewayAuthentication {
        /// The cause.
        source: E,
    },
    /// The gateway refused it.
    Gateway {
        /// The cause.
        source: E,
    },
    /// Bytes could not be passed on.
    Relay {
        /// Whether towards the gateway.
        to_gateway: bool,
        /// The cause.
        source: E,
    },
    /// The gateway's answer took too long to pass on.
    ResponseTimeout,
    /// Tracing panicked or was broken off.
    AttributionWorker,
}

/// What looking at a connection's first byte came to.
#[derive(Debug)]
pub enum Peek<E> {
    /// Nothing came in time.
    TimedOut,
    /// It could not be read.
    Failed(E),
    /// The connection was closed.
    Closed,
    /// The byte.
    First(u8),
}

/// Refuses a connection that speaks another protocol than its listener.
pub fn verify_protocol<E>(protocol: ProxyProtocol, peek: Peek<E>) -> (result: Result<
    (),
    WindowsNetworkIngressError<E>,
>)
    ensures
        match peek {
            Peek::TimedOut => result == Err::<(), WindowsNetworkIngressError<E>>(
                WindowsNetworkIngressError::ProtocolTimeout { protocol },
            ),
            Peek::Failed(source) => result == Err::<(), WindowsNetworkIngressError<E>>(
                WindowsNetworkIngressError::ProtocolRead { protocol, source },
            ),
            Peek::Closed => result == Err::<(), WindowsNetworkIngressError<E>>(
                WindowsNetworkIngressError::ProtocolMismatch { protocol },
            ),
            Peek::First(first) => if protocol.starts_with(first) {
                result is Ok
            } else {
                result == Err::<(), WindowsNetworkIngressError<E>>(
                    WindowsNetworkIngressError::ProtocolMismatch { protocol },
                )
            },
        },
{
    match peek {
        Peek::TimedOut => Err(WindowsNetworkIngressError::ProtocolTimeout { protocol }),
        Peek::Failed(source) => Err(WindowsNetworkIngressError::ProtocolRead { protocol, source }),
        Peek::Closed => Err(WindowsNetworkIngressError::ProtocolMismatch { protocol }),
        Peek::First(first) => {
            let fits = match protocol {
                ProxyProtocol::Http => first != 5,
                ProxyProtocol::Socks5 => first == 5,
            };
            if fits {
                Ok(())
            } else {
                Err(WindowsNetworkIngressError::ProtocolMismatch { protocol })
            }
        },
    }
}

/// The next step of serving a connection, or how it ended.
#[derive(Debug)]
pub enum ConnectionStep<E> {
    /// Read the accepting end's address.
    ReadLocal,
    /// Read the connecting end's address.
    ReadPeer,
    /// Trace it.
    Attribute,
    /// Choose its route.
    ChooseRoute,
    /// Look at its first byte, and then make room for another connection.
    VerifyProtocol {
        /// Its route.
        route: u64,
    },
    /// Open the bridge to the route's gateway.
    Authenticate {
        /// Its route.
        route: u64,
    },
    /// Pass bytes on in both directions.
    Relay {
        /// Its route.
        route: u64,
    },
    /// Pass bytes on to the client only: it sends no more.
    RelayResponse {
        /// Its route.
        route: u64,
    },
    /// Pass on what is left of the gateway's answer, for a while.
    DrainResponse {
        /// Its route.
        route: u64,
    },
    /// It was served.
    Served,
    /// It was refused or broke off.
    Failed {
        /// Why.
        error: WindowsNetworkIngressError<E>,
    },
}

/// What came of a step of serving a connection.
#[derive(Debug)]
pub enum ConnectionEvent<E> {
    /// It succeeded, or failed for a cause.
    Done(Result<(), E>),
    /// It was traced, or not.
    Attributed(Result<(), WindowsNetworkAttributionError>),
    /// Tracing panicked or was broken off.
    WorkerLost,
    /// Its route.
    Chosen(Result<u64, RouteChoiceError>),
    /// What looking at its first byte came to.
    Peeked(Peek<E>),
    /// The gateway is done with it, or refused it.
    GatewayEnded(Result<(), E>),
    /// Everything was passed on to the client, or not.
    ToClientEnded(Result<(), E>),
    /// Everything was passed on to the gateway, or not.
    ToGatewayEnded(Result<(), E>),
    /// Passing on took too long.
    TimedOut,
}

impl<E> ConnectionStep<E> {
    /// Whether an event can come of the step.
    pub open spec fn expects(self, event: ConnectionEvent<E>) -> bool {
        match self {
            ConnectionStep::ReadLocal
            | ConnectionStep::ReadPeer
            | ConnectionStep::Authenticate { .. } => event is Done,
            ConnectionStep::Attribute => event is Attributed || event is WorkerLost,
            ConnectionStep::ChooseRoute => event is Chosen,
            ConnectionStep::VerifyProtocol { .. } => event is Peeked,
            ConnectionStep::Relay { .. } => event is GatewayEnded || event is ToClientEnded || event
                is ToGatewayEnded,
            ConnectionStep::RelayResponse { .. } => event is GatewayEnded || event is ToClientEnded,
            ConnectionStep::DrainResponse { .. } => event is ToClientEnded || event is TimedOut,
            ConnectionStep::Served | ConnectionStep::Failed { .. } => false,
        }
    }

    /// The step after an event on a listener.
    pub open spec fn after(self, event: ConnectionEvent<E>, protocol: ProxyProtocol) -> ConnectionStep<
        E,
    > {
        match (self, event) {
            (ConnectionStep::ReadLocal, ConnectionEvent::Done(Ok(_))) => ConnectionStep::ReadPeer,
            (ConnectionStep::ReadLocal, ConnectionEvent::Done(Err(source))) =>
                ConnectionStep::Failed {
                error: WindowsNetworkIngressError::Address { peer: false, source },
            },
            (ConnectionStep::ReadPeer, ConnectionEvent::Done(Ok(_))) => ConnectionStep::Attribute,
            (ConnectionStep::ReadPeer, ConnectionEvent::Done(Err(source))) =>
                ConnectionStep::Failed {
                error: WindowsNetworkIngressError::Address { peer: true, source },
            },
            (ConnectionStep::Attribute, ConnectionEvent::Attributed(Ok(_))) =>
                ConnectionStep::ChooseRoute,
            (ConnectionStep::Attribute, ConnectionEvent::Attributed(Err(error))) =>
                ConnectionStep::Failed { error: WindowsNetworkIngressError::Attribution(error) },
            (ConnectionStep::Attribute, ConnectionEvent::WorkerLost) => ConnectionStep::Failed {
                error: WindowsNetworkIngressError::AttributionWorker,
            },
            (ConnectionStep::ChooseRoute, ConnectionEvent::Chosen(Ok(route))) =>
                ConnectionStep::VerifyProtocol { route },
            (ConnectionStep::ChooseRoute, ConnectionEvent::Chosen(Err(error))) =>
                ConnectionStep::Failed { error: WindowsNetworkIngressError::Route(error) },
            (ConnectionStep::VerifyProtocol { route }, ConnectionEvent::Peeked(peek)) => match peek {
                Peek::TimedOut => ConnectionStep::Failed {
                    error: WindowsNetworkIngressError::ProtocolTimeout { protocol },
                },
                Peek::Failed(source) => ConnectionStep::Failed {
                    error: WindowsNetworkIngressError::ProtocolRead { protocol, source },
                },
                Peek::Closed => ConnectionStep::Failed {
                    error: WindowsNetworkIngressError::ProtocolMismatch { protocol },
                },
                Peek::First(first) => if protocol.starts_with(first) {
                    ConnectionStep::Authenticate { route }
                } else {
                    ConnectionStep::Failed {
                        error: WindowsNetworkIngressError::ProtocolMismatch { protocol },
                    }
                },
            },
            (ConnectionStep::Authenticate { route }, ConnectionEvent::Done(Ok(_))) =>
                ConnectionStep::Relay { route },
            (ConnectionStep::Authenticate { .. }, ConnectionEvent::Done(Err(source))) =>
                ConnectionStep::Failed {
                error: WindowsNetworkIngressError::GatewayAuthentication { source },
            },
            (ConnectionStep::Relay { route }, ConnectionEvent::ToGatewayEnded(Ok(_))) =>
                ConnectionStep::RelayResponse { route },
            (ConnectionStep::Relay { .. }, ConnectionEvent::ToGatewayEnded(Err(source))) =>
                ConnectionStep::Failed {
                error: WindowsNetworkIngressError::Relay { to_gateway: true, source },
            },
            (ConnectionStep::Relay { route }, ConnectionEvent::GatewayEnded(Ok(_)))
            | (ConnectionStep::RelayResponse { route }, ConnectionEvent::GatewayEnded(Ok(_))) =>
                ConnectionStep::DrainResponse { route },
            (_, ConnectionEvent::GatewayEnded(Err(source))) => ConnectionStep::Failed {
                error: WindowsNetworkIngressError::Gateway { source },
            },
            (_, ConnectionEvent::ToClientEnded(Ok(_))) => ConnectionStep::Served,
            (_, ConnectionEvent::ToClientEnded(Err(source))) => ConnectionStep::Failed {
                error: WindowsNetworkIngressError::Relay { to_gateway: false, source },
            },
            (ConnectionStep::DrainResponse { .. }, ConnectionEvent::TimedOut) =>
                ConnectionStep::Failed { error: WindowsNetworkIngressError::ResponseTimeout },
            (step, _) => step,
        }
    }

    /// Takes the step after an event on a listener.
    pub fn advance(self, event: ConnectionEvent<E>, protocol: ProxyProtocol) -> (step: ConnectionStep<
        E,
    >)
        requires
            self.expects(event),
        ensures
            step == self.after(event, protocol),
    {
        match (self, event) {
            (ConnectionStep::ReadLocal, ConnectionEvent::Done(Ok(_))) => ConnectionStep::ReadPeer,
            (ConnectionStep::ReadLocal, ConnectionEvent::Done(Err(source))) =>
                ConnectionStep::Failed {
                error: WindowsNetworkIngressError::Address { peer: false, source },
            },
            (ConnectionStep::ReadPeer, ConnectionEvent::Done(Ok(_))) => ConnectionStep::Attribute,
            (ConnectionStep::ReadPeer, ConnectionEvent::Done(Err(source))) =>
                ConnectionStep::Failed {
                error: WindowsNetworkIngressError::Address { peer: true, source },
            },
            (ConnectionStep::Attribute, ConnectionEvent::Attributed(Ok(_))) =>
                ConnectionStep::ChooseRoute,
            (ConnectionStep::Attribute, ConnectionEvent::Attributed(Err(error))) =>
                ConnectionStep::Failed { error: WindowsNetworkIngressError::Attribution(error) },
            (ConnectionStep::Attribute, ConnectionEvent::WorkerLost) => ConnectionStep::Failed {
                error: WindowsNetworkIngressError::AttributionWorker,
            },
            (ConnectionStep::ChooseRoute, ConnectionEvent::Chosen(Ok(route))) =>
                ConnectionStep::VerifyProtocol { route },
            (ConnectionStep::ChooseRoute, ConnectionEvent::Chosen(Err(error))) =>
                ConnectionStep::Failed { error: WindowsNetworkIngressError::Route(error) },
            (ConnectionStep::VerifyProtocol { route }, ConnectionEvent::Peeked(peek)) => {
                match verify_protocol(protocol, peek) {
                    Ok(_) => ConnectionStep::Authenticate { route },
                    Err(error) => ConnectionStep::Failed { error },
                }
            },
            (ConnectionStep::Authenticate { route }, ConnectionEvent::Done(Ok(_))) =>
                ConnectionStep::Relay { route },
            (ConnectionStep::Authenticate { .. }, ConnectionEvent::Done(Err(source))) =>
                ConnectionStep::Failed {
                error: WindowsNetworkIngressError::GatewayAuthentication { source },
            },
            (ConnectionStep::Relay { route }, ConnectionEvent::ToGatewayEnded(Ok(_))) =>
                ConnectionStep::RelayResponse { route },
            (ConnectionStep::Relay { .. }, ConnectionEvent::ToGatewayEnded(Err(source))) =>
                ConnectionStep::Failed {
                error: WindowsNetworkIngressError::Relay { to_gateway: true, source },
            },
            (ConnectionStep::Relay { route }, ConnectionEvent::GatewayEnded(Ok(_))) =>
                ConnectionStep::DrainResponse { route },
            (ConnectionStep::RelayResponse { route }, ConnectionEvent::GatewayEnded(Ok(_))) =>
                ConnectionStep::DrainResponse { route },
            (_, ConnectionEvent::GatewayEnded(Err(source))) => ConnectionStep::Failed {
                error: WindowsNetworkIngressError::Gateway { source },
            },
            (_, ConnectionEvent::ToClientEnded(Ok(_))) => ConnectionStep::Served,
            (_, ConnectionEvent::ToClientEnded(Err(source))) => ConnectionStep::Failed {
                error: WindowsNetworkIngressError::Relay { to_gateway: false, source },
            },
            (ConnectionStep::DrainResponse { .. }, ConnectionEvent::TimedOut) =>
                ConnectionStep::Failed { error: WindowsNetworkIngressError::ResponseTimeout },
            (step, _) => step,
        }
    }
}

/// A connection reaches a gateway only after it was traced, belongs to exactly
/// one launch and speaks its listener's protocol, and it reaches that
/// launch's gateway only.
pub proof fn only_admitted_connections_reach_a_gateway<E>(
    step: ConnectionStep<E>,
    event: ConnectionEvent<E>,
    protocol: ProxyProtocol,
)
    requires
        step.expects(event),
    ensures
        step.after(event, protocol) is ChooseRoute ==> (event matches ConnectionEvent::Attributed(
            result,
        ) && result is Ok),
        step.after(event, protocol) matches ConnectionStep::VerifyProtocol { route } ==> event
            == ConnectionEvent::<E>::Chosen(Ok(route)),
        step.after(event, protocol) matches ConnectionStep::Authenticate { route } ==> step == (
        ConnectionStep::<E>::VerifyProtocol { route }) && (event matches ConnectionEvent::Peeked(
            Peek::First(first),
        ) && protocol.starts_with(first)),
        step.after(event, protocol) matches ConnectionStep::Relay { route } ==> step == (
        ConnectionStep::<E>::Authenticate { route }),
{
}

impl<E> ConnectionStep<E> {
    /// The route that a connection has been given, if any.
    pub open spec fn route(self) -> Option<u64> {
        match self {
            ConnectionStep::VerifyProtocol { route } => Some(route),
            ConnectionStep::Authenticate { route } => Some(route),
            ConnectionStep::Relay { route } => Some(route),
            ConnectionStep::RelayResponse { route } => Some(route),
            ConnectionStep::DrainResponse { route } => Some(route),
            _ => None,
        }
    }
}

impl<E> ConnectionEvent<E> {
    /// Whether the event says that something went wrong by itself.
    pub open spec fn is_failure(self) -> bool {
        match self {
            ConnectionEvent::Done(result) => result is Err,
            ConnectionEvent::Attributed(result) => result is Err,
            ConnectionEvent::WorkerLost => true,
            ConnectionEvent::Chosen(result) => result is Err,
            ConnectionEvent::Peeked(peek) => !(peek is First),
            ConnectionEvent::GatewayEnded(result) => result is Err,
            ConnectionEvent::ToClientEnded(result) => result is Err,
            ConnectionEvent::ToGatewayEnded(result) => result is Err,
            ConnectionEvent::TimedOut => true,
        }
    }
}

/// A connection is served exactly when everything was passed on to its client:
/// neither the gateway's end nor the client's own is enough, and after either what is
/// left of the answer is still passed on.
pub proof fn served_means_passed_on<E>(
    step: ConnectionStep<E>,
    event: ConnectionEvent<E>,
    protocol: ProxyProtocol,
)
    requires
        step.expects(event),
    ensures
        step.after(event, protocol) is Served <==> (event matches ConnectionEvent::ToClientEnded(
            result,
        ) && result is Ok),
        (event matches ConnectionEvent::GatewayEnded(Ok(_)) ==> step.after(event, protocol)
            is DrainResponse),
        step.after(event, protocol) is DrainResponse ==> (event matches ConnectionEvent::GatewayEnded(
            result,
        ) && result is Ok),
        (event matches ConnectionEvent::ToGatewayEnded(Ok(_)) ==> step.after(event, protocol)
            is RelayResponse),
        step.after(event, protocol) is RelayResponse ==> (event matches ConnectionEvent::ToGatewayEnded(
            result,
        ) && result is Ok),
{
}

/// A connection fails exactly where an event says that something went wrong, or
/// its first byte belongs to the other protocol, and the failure tells which it was
/// and for what cause.
pub proof fn failures_tell_their_cause<E>(
    step: ConnectionStep<E>,
    event: ConnectionEvent<E>,
    protocol: ProxyProtocol,
)
    requires
        step.expects(event),
    ensures
        step.after(event, protocol) is Failed <==> event.is_failure() || (
        event matches ConnectionEvent::Peeked(Peek::First(first)) && ((first == 5) != (protocol
            is Socks5))),
        step.after(event, protocol) matches ConnectionStep::Failed { error } ==> match error {
            WindowsNetworkIngressError::Address { peer, source } => event == ConnectionEvent::Done(
                Err::<(), E>(source),
            ) && (if peer {
                step is ReadPeer
            } else {
                step is ReadLocal
            }),
            WindowsNetworkIngressError::Attribution(cause) => event
                == ConnectionEvent::<E>::Attributed(Err(cause)),
            WindowsNetworkIngressError::AttributionWorker => event is WorkerLost,
            WindowsNetworkIngressError::Route(cause) => event == ConnectionEvent::<E>::Chosen(
                Err(cause),
            ),
            WindowsNetworkIngressError::ProtocolTimeout { protocol: told } => told == protocol
                && event == ConnectionEvent::Peeked(Peek::<E>::TimedOut),
            WindowsNetworkIngressError::ProtocolRead { protocol: told, source } => told == protocol
                && event == ConnectionEvent::Peeked(Peek::Failed(source)),
            WindowsNetworkIngressError::ProtocolMismatch { protocol: told } => told == protocol && (
            event matches ConnectionEvent::Peeked(peek) && (peek is Closed || peek is First)),
            WindowsNetworkIngressError::GatewayAuthentication { source } => step is Authenticate
                && event == ConnectionEvent::Done(Err::<(), E>(source)),
            WindowsNetworkIngressError::Gateway { source } => event
                == ConnectionEvent::GatewayEnded(Err::<(), E>(source)),
            WindowsNetworkIngressError::Relay { to_gateway, source } => event == (if to_gateway {
                ConnectionEvent::ToGatewayEnded(Err::<(), E>(source))
            } else {
                ConnectionEvent::ToClientEnded(Err::<(), E>(source))
            }),
            WindowsNetworkIngressError::ResponseTimeout => event is TimedOut,
        },
{
}

/// A connection keeps the route that was chosen for it until it ends, and its
/// addresses are read, it is traced, routed, looked at and authenticated one after
/// the other, none of which is done twice.
pub proof fn connections_keep_their_route<E>(
    step: ConnectionStep<E>,
    event: ConnectionEvent<E>,
    protocol: ProxyProtocol,
)
    requires
        step.expects(event),
    ensures
        step.route() is Some && step.after(event, protocol).route() is Some
            ==> step.after(event, protocol).route() == step.route(),
        step.route() is None ==> !(step.after(event, protocol).route() is Some) || step
            is ChooseRoute,
        step.route() is Some ==> step.after(event, protocol).route() is Some || step.after(
            event,
            protocol,
        ) is Served || step.after(event, protocol) is Failed,
        step.after(event, protocol) is ReadPeer ==> step is ReadLocal,
        step.after(event, protocol) is Attribute ==> step is ReadPeer,
        step.after(event, protocol) is ChooseRoute ==> step is Attribute,
        step.after(event, protocol) is VerifyProtocol ==> step is ChooseRoute,
        step.after(event, protocol) is RelayResponse ==> step is Relay,
        step.after(event, protocol) is DrainResponse ==> step is Relay || step is RelayResponse,
        !(step.after(event, protocol) is ReadLocal),
{
}

/// A listener opens only once every call was made, in turn, and is refused for
/// the call that failed, of its own protocol and at its own address.
pub proof fn refused_listeners_tell_the_call<E>(
    step: ListenerStep<E>,
    event: ListenerEvent<E>,
    protocol: ProxyProtocol,
    address: SocketV4,
)
    requires
        step.expects(event),
    ensures
        step.after(event, protocol, address) is Failed <==> !(event is Done),
        step.after(event, protocol, address) is SetNonblocking ==> step is Listen,
        step.after(event, protocol, address) is RequireExclusive ==> step is CreateSocket,
        !(step.after(event, protocol, address) is CreateSocket),
        step.after(event, protocol, address) matches ListenerStep::Failed { error } ==> match error {
            WindowsNetworkGatewayError::ListenerSocket { protocol: told, code } => step
                is CreateSocket && told == protocol && event == ListenerEvent::<E>::Refused(code),
            WindowsNetworkGatewayError::ListenerExclusiveAddress { protocol: told, code } => step
                is RequireExclusive && told == protocol && event == ListenerEvent::<E>::Refused(
                code,
            ),
            WindowsNetworkGatewayError::ListenerBind { protocol: told, address: at, code } => step
                is Bind && told == protocol && at == address && event
                == ListenerEvent::<E>::Refused(code),
            WindowsNetworkGatewayError::ListenerListen { protocol: told, address: at, code } => step
                is Listen && told == protocol && at == address && event
                == ListenerEvent::<E>::Refused(code),
            WindowsNetworkGatewayError::ListenerNonblocking {
                protocol: told,
                address: at,
                source,
            } => step is SetNonblocking && told == protocol && at == address && event
                == ListenerEvent::Failed(source),
            _ => false,
        },
{
}

/// The listeners' thread stops serving only where it is told to, where a listener
/// fails or a connection's task panics, and tells which it was. A connection that
/// ends, or is turned away, never stops it, and both listeners are registered before
/// it says that it is ready.
pub proof fn listeners_stop_for_a_cause<E>(step: IngressStep<E>, event: IngressEvent<E>)
    requires
        step.expects(event),
    ensures
        step is Serve ==> match event {
            IngressEvent::Shutdown => step.after(event) is Drain,
            IngressEvent::Accepted { protocol, result } => match result {
                Ok(_) => step.after(event) == (IngressStep::<E>::Accept { protocol }),
                Err(source) => step.after(event) == (IngressStep::Failed {
                    failure: WindowsNetworkRuntimeFailure::Listener { protocol, source },
                }),
            },
            IngressEvent::Completed { failed } => if failed {
                step.after(event) == (IngressStep::<E>::Failed {
                    failure: WindowsNetworkRuntimeFailure::ConnectionTaskPanicked,
                })
            } else {
                step.after(event) is Serve
            },
            _ => false,
        },
        step is Accept ==> step.after(event) is Serve,
        step.after(event) is Ended ==> step is Drain || step is ReportFailure,
        step.after(event) is Drain ==> event is Shutdown,
        step.after(event) matches IngressStep::Register { protocol } ==> (event matches IngressEvent::Done(
            result,
        ) && result is Ok) && (if protocol is Http {
            step is BuildRuntime
        } else {
            step == (IngressStep::<E>::Register { protocol: ProxyProtocol::Http })
        }),
        step.after(event) matches IngressStep::ReportFailure { failure } ==> match failure {
            WindowsNetworkRuntimeFailure::RuntimeConstruction { source } => step is BuildRuntime
                && event == IngressEvent::Done(Err::<(), E>(source)),
            WindowsNetworkRuntimeFailure::ListenerRegistration { protocol, source } => step == (
            IngressStep::<E>::Register { protocol }) && event == IngressEvent::Done(
                Err::<(), E>(source),
            ),
            _ => false,
        },
        (step is BuildRuntime || step is Register) && (event matches IngressEvent::Done(result)
            && result is Err) ==> step.after(event) is ReportFailure,
        step is ReportReady && event == IngressEvent::<E>::Reported(false) ==> step.after(event)
            == (IngressStep::<E>::Failed {
            failure: WindowsNetworkRuntimeFailure::StartupReceiverClosed,
        }),
        step.after(event) is Failed ==> step is Serve || step is ReportReady,
        !(step.after(event) is BuildRuntime),
{
}

/// The listeners are healthy only while their thread runs.
pub proof fn only_running_listeners_are_healthy<E>(state: ThreadState<E>)
    ensures
        health_of(state) is None <==> state is Running,
        health_of(state) matches Some(error) ==> match error {
            WindowsNetworkRuntimeError::StatePoisoned => state is Poisoned,
            WindowsNetworkRuntimeError::Failed { source } => state == ThreadState::Ended(
                Err(source),
            ),
            WindowsNetworkRuntimeError::StoppedBeforeProcess => state is Missing || (
            state matches ThreadState::Ended(ended) && ended is Ok),
            WindowsNetworkRuntimeError::Panicked => state is Panicked,
        },
{
}

/// The listeners' ports are two that a listener can have: neither of them is
/// none, and they are not the same, so exchanging them changes nothing.
pub proof fn listener_ports_are_two(http: u16, socks: u16)
    ensures
        valid_ports(seq![http, socks]) <==> http > 0 && socks > 0 && http != socks,
        valid_ports(seq![http, socks]) == valid_ports(seq![socks, http]),
        !valid_ports(seq![http]),
        !valid_ports(seq![http, socks, http]),
        !valid_ports(Seq::empty()),
{
}

} // verus!
