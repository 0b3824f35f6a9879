//! What a peer discovery algorithm is told, what it asks for, and what it has to offer. The keys
//! (`P`), the messages and the metrics are those of the deployment.
use crate::addr::SocketAddrV4;
use crate::signed::{CertificateSignatureRecoverable, MonadNameRecord, NodeId};
use std::collections::{BTreeSet, HashMap};
use std::time::Duration;
use vstd::prelude::*;

verus! {

/// A consensus round.
#[derive(Clone, Copy, Debug, PartialEq, Eq, Hash, PartialOrd, Ord)]
pub struct Round(pub u64);

/// An epoch of consecutive rounds.
#[derive(Clone, Copy, Debug, PartialEq, Eq, Hash, PartialOrd, Ord)]
pub struct Epoch(pub u64);

/// What happens to a peer discovery algorithm.
#[derive(Clone, Debug)]
#[allow(inconsistent_fields)]
pub enum PeerDiscoveryEvent<P, Ping, Pong, LookupRequest, LookupResponse, Entry> {
    /// A ping is due.
    SendPing { to: NodeId<P>, socket_address: SocketAddrV4, ping: Ping },
    /// A ping came in.
    PingRequest { from: NodeId<P>, ping: Ping },
    /// A pong came in.
    PongResponse { from: NodeId<P>, pong: Pong },
    /// A ping was not answered.
    PingTimeout { to: NodeId<P>, ping_id: u32 },
    /// A lookup is due.
    SendPeerLookup { to: NodeId<P>, target: NodeId<P>, open_discovery: bool },
    /// A lookup came in.
    PeerLookupRequest { from: NodeId<P>, request: LookupRequest },
    /// The answer to a lookup came in.
    PeerLookupResponse { from: NodeId<P>, response: LookupResponse },
    /// A lookup was not answered.
    PeerLookupTimeout { to: NodeId<P>, target: NodeId<P>, lookup_id: u32 },
    /// A request for raptorcast to a full node is due.
    SendFullNodeRaptorcastRequest { to: NodeId<P> },
    /// A full node asks for raptorcast.
    FullNodeRaptorcastRequest { from: NodeId<P> },
    /// A full node was granted raptorcast.
    FullNodeRaptorcastResponse { from: NodeId<P> },
    /// The current round changed.
    UpdateCurrentRound { round: Round, epoch: Epoch },
    /// The validators of an epoch became known.
    UpdateValidatorSet { epoch: Epoch, validators: BTreeSet<NodeId<P>> },
    /// Peers were configured.
    UpdatePeers { peers: Vec<Entry> },
    /// The nodes that are always kept changed.
    UpdatePinnedNodes {
        dedicated_full_nodes: BTreeSet<NodeId<P>>,
        prioritized_full_nodes: BTreeSet<NodeId<P>>,
    },
    /// A group was confirmed.
    UpdateConfirmGroup { end_round: Round, peers: BTreeSet<NodeId<P>> },
    /// It is time to refresh.
    Refresh,
}

/// What a timer is for.
#[derive(Clone, Copy, Debug, PartialEq, Eq, Hash)]
pub enum TimerKind {
    /// The next ping.
    SendPing,
    /// The end of the wait for a pong.
    PingTimeout,
    /// The next attempt at a lookup.
    RetryPeerLookup { lookup_id: u32 },
    /// The next refresh.
    Refresh,
    /// The next request for raptorcast to a full node.
    FullNodeRaptorcastRequest,
}

/// What is asked of the timers; `E` is the event that a timer brings.
#[derive(Debug)]
pub enum PeerDiscoveryTimerCommand<E, P> {
    /// Set a timer.
    Schedule { node_id: NodeId<P>, timer_kind: TimerKind, duration: Duration, on_timeout: E },
    /// Drop a timer.
    ScheduleReset { node_id: NodeId<P>, timer_kind: TimerKind },
}

impl<E: Clone, P: Clone> Clone for PeerDiscoveryTimerCommand<E, P> {
    fn clone(&self) -> (r: Self)
        ensures
            match (*self, r) {
                (
                    PeerDiscoveryTimerCommand::Schedule {
                        node_id,
                        timer_kind,
                        duration,
                        on_timeout,
                    },
                    PeerDiscoveryTimerCommand::Schedule {
                        node_id: node_id2,
                        timer_kind: timer_kind2,
                        duration: duration2,
                        on_timeout: on_timeout2,
                    },
                ) => {
                    &&& cloned(node_id, node_id2)
                    &&& timer_kind2 == timer_kind
                    &&& duration2 == duration
                    &&& cloned(on_timeout, on_timeout2)
                },
                (
                    PeerDiscoveryTimerCommand::ScheduleReset { node_id, timer_kind },
                    PeerDiscoveryTimerCommand::ScheduleReset {
                        node_id: node_id2,
                        timer_kind: timer_kind2,
                    },
                ) => cloned(node_id, node_id2) && timer_kind2 == timer_kind,
                _ => false,
            },
    {
        match self {
            PeerDiscoveryTimerCommand::Schedule { node_id, timer_kind, duration, on_timeout } => {
                PeerDiscoveryTimerCommand::Schedule {
                    node_id: node_id.clone(),
                    timer_kind: *timer_kind,
                    duration: *duration,
                    on_timeout: on_timeout.clone(),
                }
            },
            PeerDiscoveryTimerCommand::ScheduleReset { node_id, timer_kind } => {
                PeerDiscoveryTimerCommand::ScheduleReset {
                    node_id: node_id.clone(),
                    timer_kind: *timer_kind,
                }
            },
        }
    }
}

/// The metrics to report.
#[derive(Clone, Debug)]
pub struct PeerDiscoveryMetricsCommand<Metrics>(pub Metrics);

/// What a peer discovery algorithm asks for.
#[derive(Clone, Debug)]
pub enum PeerDiscoveryCommand<P, Message, E, Metrics> {
    /// Send a message to a node.
    RouterCommand { target: NodeId<P>, message: Message },
    /// Send a ping or a pong to an address.
    PingPongCommand { target: NodeId<P>, socket_address: SocketAddrV4, message: Message },
    /// Set or drop a timer.
    TimerCommand(PeerDiscoveryTimerCommand<E, P>),
    /// Report metrics.
    MetricsCommand(PeerDiscoveryMetricsCommand<Metrics>),
}

/// The public keys of the nodes that an algorithm deals with.
pub type PubKeyOf<A: ?Sized> =
    <<A as PeerDiscoveryAlgo>::SignatureType as CertificateSignatureRecoverable>::PubKeyType;

/// The events of an algorithm.
pub type EventOf<A: ?Sized> = PeerDiscoveryEvent<
    PubKeyOf<A>,
    <A as PeerDiscoveryAlgo>::Ping,
    <A as PeerDiscoveryAlgo>::Pong,
    <A as PeerDiscoveryAlgo>::PeerLookupRequest,
    <A as PeerDiscoveryAlgo>::PeerLookupResponse,
    <A as PeerDiscoveryAlgo>::PeerEntry,
>;

/// The commands of an algorithm.
pub type CommandOf<A: ?Sized> = PeerDiscoveryCommand<
    PubKeyOf<A>,
    <A as PeerDiscoveryAlgo>::Message,
    EventOf<A>,
    <A as PeerDiscoveryAlgo>::Metrics,
>;

/// A peer discovery algorithm: a state that changes with every event and answers it with commands.
/// How it does so is up to the algorithm.
pub trait PeerDiscoveryAlgo {
    /// The signatures of the name records.
    type SignatureType: CertificateSignatureRecoverable;

    /// The message that asks whether a node is there.
    type Ping;

    /// The answer to it.
    type Pong;

    /// The message that asks for name records.
    type PeerLookupRequest;

    /// The answer to it.
    type PeerLookupResponse;

    /// Any of these messages.
    type Message;

    /// A configured peer.
    type PeerEntry;

    /// The metrics of the algorithm.
    type Metrics;

    /// Sends a ping.
    fn send_ping(
        &mut self,
        target: NodeId<PubKeyOf<Self>>,
        socket_address: SocketAddrV4,
        ping: Self::Ping,
    ) -> Vec<CommandOf<Self>>;

    /// Answers a ping.
    fn handle_ping(&mut self, from: NodeId<PubKeyOf<Self>>, ping: Self::Ping) -> Vec<
        CommandOf<Self>,
    >;

    /// Takes note of a pong.
    fn handle_pong(&mut self, from: NodeId<PubKeyOf<Self>>, pong: Self::Pong) -> Vec<
        CommandOf<Self>,
    >;

    /// Takes note of an unanswered ping.
    fn handle_ping_timeout(&mut self, to: NodeId<PubKeyOf<Self>>, ping_id: u32) -> Vec<
        CommandOf<Self>,
    >;

    /// Asks a node for the record of another.
    fn send_peer_lookup_request(
        &mut self,
        to: NodeId<PubKeyOf<Self>>,
        target: NodeId<PubKeyOf<Self>>,
        open_discovery: bool,
    ) -> Vec<CommandOf<Self>>;

    /// Answers a lookup.
    fn handle_peer_lookup_request(
        &mut self,
        from: NodeId<PubKeyOf<Self>>,
        request: Self::PeerLookupRequest,
    ) -> Vec<CommandOf<Self>>;

    /// Takes note of the answer to a lookup.
    fn handle_peer_lookup_response(
        &mut self,
        from: NodeId<PubKeyOf<Self>>,
        response: Self::PeerLookupResponse,
    ) -> Vec<CommandOf<Self>>;

    /// Takes note of an unanswered lookup.
    fn handle_peer_lookup_timeout(
        &mut self,
        to: NodeId<PubKeyOf<Self>>,
        target: NodeId<PubKeyOf<Self>>,
        lookup_id: u32,
    ) -> Vec<CommandOf<Self>>;

    /// Asks a node for raptorcast.
    fn send_full_node_raptorcast_request(&mut self, to: NodeId<PubKeyOf<Self>>) -> Vec<
        CommandOf<Self>,
    >;

    /// Answers a full node that asks for raptorcast.
    fn handle_full_node_raptorcast_request(&mut self, from: NodeId<PubKeyOf<Self>>) -> Vec<
        CommandOf<Self>,
    >;

    /// Takes note of a granted request for raptorcast.
    fn handle_full_node_raptorcast_response(&mut self, from: NodeId<PubKeyOf<Self>>) -> Vec<
        CommandOf<Self>,
    >;

    /// Refreshes what is known.
    fn refresh(&mut self) -> Vec<CommandOf<Self>>;

    /// Takes note of the current round.
    fn update_current_round(&mut self, round: Round, epoch: Epoch) -> Vec<CommandOf<Self>>;

    /// Takes note of the validators of an epoch.
    fn update_validator_set(
        &mut self,
        epoch: Epoch,
        validators: BTreeSet<NodeId<PubKeyOf<Self>>>,
    ) -> Vec<CommandOf<Self>>;

    /// Takes note of configured peers.
    fn update_peers(&mut self, peers: Vec<Self::PeerEntry>) -> Vec<CommandOf<Self>>;

    /// Takes note of the nodes that are always kept.
    fn update_pinned_nodes(
        &mut self,
        dedicated_full_nodes: BTreeSet<NodeId<PubKeyOf<Self>>>,
        prioritized_full_nodes: BTreeSet<NodeId<PubKeyOf<Self>>>,
    ) -> Vec<CommandOf<Self>>;

    /// Takes note of the peers that take part up to a round.
    fn update_peer_participation(
        &mut self,
        round: Round,
        peers: BTreeSet<NodeId<PubKeyOf<Self>>>,
    ) -> Vec<CommandOf<Self>>;

    /// The metrics.
    fn metrics(&self) -> &Self::Metrics;

    /// The address of a node that has not answered yet.
    fn get_pending_addr_by_id(&self, id: &NodeId<PubKeyOf<Self>>) -> Option<SocketAddrV4>;

    /// The address of a node.
    fn get_addr_by_id(&self, id: &NodeId<PubKeyOf<Self>>) -> Option<SocketAddrV4>;

    /// The addresses of all nodes.
    fn get_known_addrs(&self) -> HashMap<NodeId<PubKeyOf<Self>>, SocketAddrV4>;

    /// The full nodes that are served in the second place.
    fn get_secondary_fullnodes(&self) -> Vec<NodeId<PubKeyOf<Self>>>;

    /// The name records of all nodes.
    fn get_name_records(&self) -> HashMap<
        NodeId<PubKeyOf<Self>>,
        MonadNameRecord<Self::SignatureType>,
    >;
}

/// What a peer discovery algorithm is started from.
pub trait PeerDiscoveryAlgoBuilder {
    /// The algorithm.
    type PeerDiscoveryAlgoType: PeerDiscoveryAlgo;

    /// Starts the algorithm; gives its first commands with it.
    fn build(self) -> (
        Self::PeerDiscoveryAlgoType,
        Vec<CommandOf<Self::PeerDiscoveryAlgoType>>,
    );
}

} // verus!
