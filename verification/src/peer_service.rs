use vstd::prelude::*;

verus! {

/// How many seconds the service waits after a pong before it pings again.
pub const PING_DELAY_SECS: u64 = 5;

/// A request to apply a peer configuration, in its two parts.
#[derive(Debug, Clone, PartialEq, Eq)]
pub struct ApplyPeerConfiguration<C, C2> {
    pub configuration: Option<C>,
    pub configuration2: Option<C2>,
}

/// A message that the broker sends down to the peer.
#[derive(Debug, Clone, PartialEq, Eq)]
pub enum Message<C, C2> {
    Pong,
    ApplyPeerConfiguration(ApplyPeerConfiguration<C, C2>),
}

/// What arrives on the downstream: a message, if any, with the tracing
/// context it was sent in.
#[derive(Debug, Clone, PartialEq, Eq)]
pub struct Downstream<C, C2, T> {
    pub message: Option<Message<C, C2>>,
    pub context: Option<T>,
}

/// What the service does with a downstream message.
#[derive(Debug, Clone, PartialEq, Eq)]
pub enum StreamAction<C, C2, T> {
    /// Wait `delay_secs` seconds, then send a ping.
    SendPing { delay_secs: u64 },
    /// Apply both parts of a peer configuration, within the given tracing context.
    Apply { configuration: C, configuration2: C2, context: Option<T> },
    /// Report and drop a downstream that carries no message.
    IgnoreEmpty { context: Option<T> },
    /// Report and drop a configuration request that lacks one of its parts.
    IgnoreIncomplete(ApplyPeerConfiguration<C, C2>),
}

/// The action that the service takes on `downstream`.
pub open spec fn stream_action<C, C2, T>(downstream: Downstream<C, C2, T>) -> StreamAction<C, C2, T> {
    match downstream.message {
        None => StreamAction::IgnoreEmpty { context: downstream.context },
        Some(Message::Pong) => StreamAction::SendPing { delay_secs: PING_DELAY_SECS },
        Some(Message::ApplyPeerConfiguration(request)) => match (request.configuration, request.configuration2) {
            (Some(configuration), Some(configuration2)) => StreamAction::Apply {
                configuration,
                configuration2,
                context: downstream.context,
            },
            _ => StreamAction::IgnoreIncomplete(request),
        },
    }
}

/// Decides what to do with a message that arrived on the downstream.
pub fn handle_stream_message<C, C2, T>(downstream: Downstream<C, C2, T>) -> (action: StreamAction<C, C2, T>)
    ensures
        action == stream_action(downstream),
{
    match downstream.message {
        None => StreamAction::IgnoreEmpty { context: downstream.context },
        Some(Message::Pong) => StreamAction::SendPing { delay_secs: PING_DELAY_SECS },
        Some(Message::ApplyPeerConfiguration(request)) => match request {
            ApplyPeerConfiguration {
                configuration: Some(configuration),
                configuration2: Some(configuration2),
            } => StreamAction::Apply { configuration, configuration2, context: downstream.context },
            request => StreamAction::IgnoreIncomplete(request),
        },
    }
}

/// What applying a peer configuration comes to, once its parts were converted.
#[derive(Debug, Clone, PartialEq, Eq)]
pub enum ApplyOutcome<P, E, P2, E2> {
    /// The first part does not convert; the second is not looked at.
    IllegalConfiguration(E),
    /// The first part converts, the second does not.
    IllegalConfiguration2(E2),
    /// Both parts convert: set up the executors of the second part, then the
    /// cluster of the first.
    SetUp { configuration: P, configuration2: P2 },
}

/// Converts the second part of a peer configuration only once the first part
/// has converted, and decides what applying it comes to.
pub fn apply_outcome<P, E, P2, E2, F: FnOnce() -> Result<P2, E2>>(
    configuration: Result<P, E>,
    convert_configuration2: F,
) -> (outcome: ApplyOutcome<P, E, P2, E2>)
    requires
        configuration is Ok ==> convert_configuration2.requires(()),
    ensures
        configuration matches Err(error) ==> outcome == ApplyOutcome::<P, E, P2, E2>::IllegalConfiguration(error),
        configuration matches Ok(first) ==> exists|converted: Result<P2, E2>|
            {
                &&& #[trigger] convert_configuration2.ensures((), converted)
                &&& outcome == match converted {
                    Ok(second) => (ApplyOutcome::<P, E, P2, E2>::SetUp { configuration: first, configuration2: second }),
                    Err(error) => ApplyOutcome::IllegalConfiguration2(error),
                }
            },
{
    match configuration {
        Err(error) => ApplyOutcome::IllegalConfiguration(error),
        Ok(configuration) => match convert_configuration2() {
            Ok(configuration2) => ApplyOutcome::SetUp { configuration, configuration2 },
            Err(error) => ApplyOutcome::IllegalConfiguration2(error),
        },
    }
}

/// What the service does about the cluster assignment of a configuration.
#[derive(Debug, Clone, PartialEq, Eq)]
pub enum ClusterSetup<A> {
    /// Set up the network interfaces for the assigned cluster.
    ConfigureNetworkInterfaces(A),
    /// A cluster is assigned, but network interface management is disabled.
    SkipDisabled(A),
    /// No cluster is assigned.
    NoAssignment,
}

/// The cluster setup for `cluster_assignment` when network interface
/// management is `enabled` or not.
pub open spec fn cluster_setup_spec<A>(cluster_assignment: Option<A>, enabled: bool) -> ClusterSetup<A> {
    match cluster_assignment {
        Some(assignment) => if enabled {
            ClusterSetup::ConfigureNetworkInterfaces(assignment)
        } else {
            ClusterSetup::SkipDisabled(assignment)
        },
        None => ClusterSetup::NoAssignment,
    }
}

/// Decides how to set up the cluster that a configuration assigns.
pub fn setup_cluster<A>(cluster_assignment: Option<A>, network_interface_management_enabled: bool) -> (setup: ClusterSetup<A>)
    ensures
        setup == cluster_setup_spec(cluster_assignment, network_interface_management_enabled),
{
    match cluster_assignment {
        Some(assignment) => {
            if network_interface_management_enabled {
                ClusterSetup::ConfigureNetworkInterfaces(assignment)
            } else {
                ClusterSetup::SkipDisabled(assignment)
            }
        },
        None => ClusterSetup::NoAssignment,
    }
}

/// What one wait on the downstream brought.
#[derive(Debug, Clone, PartialEq, Eq)]
pub enum Received<M, S> {
    /// A message arrived.
    Message(M),
    /// The broker sent an error status.
    Status(S),
    /// The broker closed the stream.
    Disconnected,
    /// Nothing arrived within the timeout.
    TimedOut,
}

/// Why the service stops listening.
#[derive(Debug, Clone, PartialEq, Eq)]
pub enum StopReason {
    Disconnected,
    TimedOut,
}

/// The next step of the receive loop.
#[derive(Debug, Clone, PartialEq, Eq)]
pub enum LoopStep<M, S> {
    /// Handle the message, then wait again.
    Handle(M),
    /// Report the error status, then wait again.
    Report(S),
    /// Leave the loop.
    Stop(StopReason),
}

/// The step that the receive loop takes on `received`.
pub open spec fn loop_step<M, S>(received: Received<M, S>) -> LoopStep<M, S> {
    match received {
        Received::Message(message) => LoopStep::Handle(message),
        Received::Status(status) => LoopStep::Report(status),
        Received::Disconnected => LoopStep::Stop(StopReason::Disconnected),
        Received::TimedOut => LoopStep::Stop(StopReason::TimedOut),
    }
}

/// Decides the next step of the receive loop.
pub fn next_step<M, S>(received: Received<M, S>) -> (step: LoopStep<M, S>)
    ensures
        step == loop_step(received),
{
    match received {
        Received::Message(message) => LoopStep::Handle(message),
        Received::Status(status) => LoopStep::Report(status),
        Received::Disconnected => LoopStep::Stop(StopReason::Disconnected),
        Received::TimedOut => LoopStep::Stop(StopReason::TimedOut),
    }
}

/// Whether the receive loop leaves after `received`.
pub open spec fn stops<M, S>(received: Received<M, S>) -> bool {
    loop_step(received) is Stop
}

/// Every pong is answered by a ping after the fixed delay.
pub proof fn lemma_pong_is_answered_by_ping<C, C2, T>(downstream: Downstream<C, C2, T>)
    requires
        downstream.message == Some(Message::<C, C2>::Pong),
    ensures
        stream_action(downstream) == (StreamAction::<C, C2, T>::SendPing { delay_secs: PING_DELAY_SECS }),
{
}

/// A configuration is applied exactly when the request carries both of its parts,
/// and then with those parts and the request's tracing context.
pub proof fn lemma_apply_iff_complete<C, C2, T>(downstream: Downstream<C, C2, T>)
    ensures
        stream_action(downstream) is Apply <==> (downstream.message matches Some(
            Message::ApplyPeerConfiguration(request),
        ) && request.configuration is Some && request.configuration2 is Some),
        stream_action(downstream) matches StreamAction::Apply { configuration, configuration2, context }
            ==> (downstream.message matches Some(Message::ApplyPeerConfiguration(request))
            && request.configuration == Some(configuration) && request.configuration2 == Some(
            configuration2,
        ) && context == downstream.context),
{
}

/// The network interfaces are configured exactly when a cluster is assigned and
/// network interface management is enabled.
pub proof fn lemma_configure_iff_assigned_and_enabled<A>(cluster_assignment: Option<A>, enabled: bool)
    ensures
        cluster_setup_spec(cluster_assignment, enabled) is ConfigureNetworkInterfaces <==> (
        cluster_assignment is Some && enabled),
        cluster_assignment matches Some(assignment) ==> cluster_setup_spec(cluster_assignment, enabled) == if enabled {
            ClusterSetup::ConfigureNetworkInterfaces(assignment)
        } else {
            ClusterSetup::SkipDisabled(assignment)
        },
        cluster_assignment is None ==> cluster_setup_spec(cluster_assignment, enabled) is NoAssignment,
{
}

/// The receive loop leaves exactly when the broker disconnects or stays silent
/// past the timeout; messages and error statuses keep it running.
pub proof fn lemma_stops_iff_disconnected_or_timed_out<M, S>(received: Received<M, S>)
    ensures
        stops(received) <==> (received is Disconnected || received is TimedOut),
        received matches Received::Message(message) ==> loop_step(received) == LoopStep::<M, S>::Handle(message),
        received matches Received::Status(status) ==> loop_step(received) == LoopStep::<M, S>::Report(status),
        received is Disconnected ==> loop_step(received) == LoopStep::<M, S>::Stop(StopReason::Disconnected),
        received is TimedOut ==> loop_step(received) == LoopStep::<M, S>::Stop(StopReason::TimedOut),
{
}

} // verus!
