//! Plain data carried through the reactor: identifiers, addresses, events,
//! tasks, errors, and the actions the reactor asks its embedding to perform.

use vstd::prelude::*;

verus! {

/// Identifier of one live session; assigned at session open, strictly
/// increasing, never reused within a process.
pub type SessionId = u64;

/// Opaque identifier of a protocol; stable within a process.
pub type ProtocolId = u64;

/// Whether the local side initiated the connection (`Outbound`, the dialing
/// client) or accepted it (`Inbound`, the listening server).
#[derive(Clone, Copy, Debug, PartialEq, Eq, Structural)]
pub enum SessionType {
    /// The local side dialed out.
    Outbound,
    /// The local side accepted the connection.
    Inbound,
}

/// A self-describing remote address (transport plus endpoint), kept as its
/// byte encoding; the embedding parses and resolves it.
#[derive(Clone, Debug, PartialEq, Eq)]
pub struct Multiaddr {
    /// The encoded address bytes.
    pub bytes: Vec<u8>,
}

impl View for Multiaddr {
    type V = Seq<u8>;

    open spec fn view(&self) -> Seq<u8> {
        self.bytes@
    }
}

/// The remote peer's public key as produced by the encrypted handshake,
/// kept as its byte encoding.
#[derive(Clone, Debug, PartialEq, Eq)]
pub struct PublicKey {
    /// The encoded key bytes.
    pub bytes: Vec<u8>,
}

impl View for PublicKey {
    type V = Seq<u8>;

    open spec fn view(&self) -> Seq<u8> {
        self.bytes@
    }
}

/// The kinds of failure surfaced at the service boundary.
#[derive(Clone, Copy, Debug, PartialEq, Eq, Structural)]
pub enum ErrorKind {
    /// Underlying transport failure (read, write, accept, connect).
    IoError,
    /// Clock or timer subsystem failure.
    TimerError,
    /// A dial or handshake exceeded the configured deadline.
    TimedOut,
    /// The cryptographic handshake rejected the peer.
    HandshakeFailed,
    /// Identity collision: a live session already holds this remote key;
    /// carries the live session's id.
    RepeatedConnection(SessionId),
    /// The address could not be resolved to a TCP socket address.
    InvalidAddress,
}

/// Per-protocol configuration: identity, wire name, supported versions
/// (most preferred first), and whether a handler factory exists at each tier.
#[derive(Clone, Debug, PartialEq, Eq)]
pub struct ProtoConfig {
    /// The protocol's id.
    pub id: ProtocolId,
    /// The protocol's wire name.
    pub name: String,
    /// Supported versions, most preferred first.
    pub versions: Vec<String>,
    /// Whether the service-level handler factory yields a handler.
    pub has_service_handle: bool,
    /// Whether the session-level handler factory yields a handler.
    pub has_session_handle: bool,
}

/// Read-only description of one protocol, published to handlers through the
/// service context.
#[derive(Clone, Debug, PartialEq, Eq)]
pub struct ProtocolInfo {
    /// The protocol's id.
    pub id: ProtocolId,
    /// The protocol's wire name.
    pub name: String,
    /// Supported versions, most preferred first.
    pub versions: Vec<String>,
}

/// Everything the reactor records about one live session.
#[derive(Clone, Debug, PartialEq, Eq)]
pub struct SessionContext {
    /// The session's id.
    pub id: SessionId,
    /// The remote address.
    pub address: Multiaddr,
    /// Who initiated the connection.
    pub ty: SessionType,
    /// The remote public key, absent when no key pair is configured.
    pub remote_pubkey: Option<PublicKey>,
}

/// An event travelling between a session task (or handshake task) and the
/// reactor, in either direction.
#[derive(Clone, Debug, PartialEq, Eq)]
pub enum SessionEvent {
    /// A session closed, or the reactor asks a session to close.
    SessionClose {
        /// Session id.
        id: SessionId,
    },
    /// An encrypted handshake completed; the embedding holds the
    /// authenticated stream.
    HandshakeSuccess {
        /// The remote peer's public key.
        public_key: PublicKey,
        /// The remote address.
        address: Multiaddr,
        /// Who initiated the connection.
        ty: SessionType,
    },
    /// An encrypted handshake failed.
    HandshakeFail {
        /// Who initiated the connection.
        ty: SessionType,
        /// Why it failed.
        error: ErrorKind,
        /// The remote address.
        address: Multiaddr,
    },
    /// Protocol payload, either received from a session or to be sent to one.
    ProtocolMessage {
        /// Session id.
        id: SessionId,
        /// Protocol id.
        proto_id: ProtocolId,
        /// The payload.
        data: Vec<u8>,
    },
    /// A sub-stream opened for a protocol on a session.
    ProtocolOpen {
        /// Session id.
        id: SessionId,
        /// Protocol id.
        proto_id: ProtocolId,
        /// The negotiated version.
        version: String,
    },
    /// A sub-stream closed for a protocol on a session.
    ProtocolClose {
        /// Session id.
        id: SessionId,
        /// Protocol id.
        proto_id: ProtocolId,
    },
}

/// Event delivered to the user's service handle.
#[derive(Clone, Debug, PartialEq, Eq)]
pub enum ServiceEvent {
    /// A session closed.
    SessionClose {
        /// Session id.
        id: SessionId,
    },
    /// A session opened.
    SessionOpen {
        /// Session id.
        id: SessionId,
        /// Remote address.
        address: Multiaddr,
        /// Who initiated the connection.
        ty: SessionType,
        /// Remote public key, absent when no key pair is configured.
        public_key: Option<PublicKey>,
    },
}

/// Error delivered to the user's service handle, with direction context.
#[derive(Clone, Debug, PartialEq, Eq)]
pub enum ServiceError {
    /// An outbound attempt failed.
    DialerError {
        /// Remote address.
        address: Multiaddr,
        /// Why it failed.
        error: ErrorKind,
    },
    /// A listener failed.
    ListenError {
        /// Listen address.
        address: Multiaddr,
        /// Why it failed.
        error: ErrorKind,
    },
}

/// An instruction the outside world can submit to the running service.
#[derive(Clone, Debug, PartialEq, Eq)]
pub enum ServiceTask {
    /// Send protocol data to some sessions (`None` broadcasts to all).
    ProtocolMessage {
        /// Target sessions; `None` means every live session.
        session_ids: Option<Vec<SessionId>>,
        /// Protocol id.
        proto_id: ProtocolId,
        /// The payload.
        data: Vec<u8>,
    },
    /// Deliver a notify token to the service-level handler of a protocol.
    ProtocolNotify {
        /// Protocol id.
        proto_id: ProtocolId,
        /// The opaque token.
        token: u64,
    },
    /// Deliver a notify token to one session-level handler.
    ProtocolSessionNotify {
        /// Session id.
        session_id: SessionId,
        /// Protocol id.
        proto_id: ProtocolId,
        /// The opaque token.
        token: u64,
    },
    /// Ask the embedding to spawn a user future; the future itself stays with
    /// the embedding.
    FutureTask,
    /// Close one session.
    Disconnect {
        /// Session id.
        session_id: SessionId,
    },
    /// Start an outbound attempt.
    Dial {
        /// Remote address.
        address: Multiaddr,
    },
}

/// One thing the embedding must do after an operation of the reactor: a
/// handler callback to invoke, a task to spawn, a stream to shut down.
/// Operations return the exact ordered sequence of these.
#[derive(Clone, Debug, PartialEq, Eq)]
pub enum Action {
    /// Deliver an event to the user's service handle.
    HandleEvent(ServiceEvent),
    /// Deliver an error to the user's service handle.
    HandleError(ServiceError),
    /// A service-level handler was created: call its `init`.
    ServiceInit {
        /// Protocol id.
        proto_id: ProtocolId,
    },
    /// Call `connected` on the service-level handler of a protocol.
    ServiceConnected {
        /// Protocol id.
        proto_id: ProtocolId,
        /// Session id.
        session_id: SessionId,
        /// The negotiated version.
        version: String,
    },
    /// Deliver a payload to the service-level handler of a protocol.
    ServiceReceived {
        /// Protocol id.
        proto_id: ProtocolId,
        /// Session id.
        session_id: SessionId,
        /// The payload.
        data: Vec<u8>,
    },
    /// Call `disconnected` on the service-level handler of a protocol.
    ServiceDisconnected {
        /// Protocol id.
        proto_id: ProtocolId,
        /// Session id.
        session_id: SessionId,
    },
    /// Deliver a notify token to the service-level handler of a protocol.
    ServiceNotify {
        /// Protocol id.
        proto_id: ProtocolId,
        /// The opaque token.
        token: u64,
    },
    /// Call `connected` on a freshly created session-level handler.
    SessionConnected {
        /// Session id.
        session_id: SessionId,
        /// Protocol id.
        proto_id: ProtocolId,
        /// The negotiated version.
        version: String,
    },
    /// Deliver a payload to a session-level handler.
    SessionReceived {
        /// Session id.
        session_id: SessionId,
        /// Protocol id.
        proto_id: ProtocolId,
        /// The payload.
        data: Vec<u8>,
    },
    /// Call `disconnected` on a session-level handler, then drop it.
    SessionDisconnected {
        /// Session id.
        session_id: SessionId,
        /// Protocol id.
        proto_id: ProtocolId,
    },
    /// Deliver a notify token to a session-level handler.
    SessionNotify {
        /// Session id.
        session_id: SessionId,
        /// Protocol id.
        proto_id: ProtocolId,
        /// The opaque token.
        token: u64,
    },
    /// Spawn the multiplexed session task for a freshly opened session; when
    /// `open_all_protocols` is set (outbound side) it must open one sub-stream
    /// per configured protocol.
    SpawnSession {
        /// Session id.
        session_id: SessionId,
        /// Who initiated the connection.
        ty: SessionType,
        /// Whether the session opens one sub-stream per configured protocol.
        open_all_protocols: bool,
    },
    /// Spawn the encrypted handshake task for a fresh socket, with the
    /// configured timeout; its outcome comes back as a `SessionEvent`.
    StartHandshake {
        /// Who initiated the connection.
        ty: SessionType,
        /// The remote address.
        address: Multiaddr,
    },
    /// Start a TCP connect toward an address, with the configured timeout.
    StartDial {
        /// The remote address.
        address: Multiaddr,
    },
    /// Shut down the stream of a just rejected duplicate connection.
    ShutdownStream,
    /// Spawn the user future submitted as a `ServiceTask::FutureTask`.
    SpawnFuture,
    /// Drop every notify sender registered for this session and protocol.
    RemoveNotify {
        /// Session id.
        session_id: SessionId,
        /// Protocol id.
        proto_id: ProtocolId,
    },
}

} // verus!
