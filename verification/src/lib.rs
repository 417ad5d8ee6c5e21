//! Core event loop of a peer-to-peer networking runtime, as a verified state
//! machine.
//!
//! The [`service::Service`] owns every registry of the reactor: live sessions,
//! pending dials, bound listen addresses, and the two tiers of protocol
//! handlers.  Each operation consumes one plain event (a handshake outcome, a
//! session event, an external task) and returns the exact sequence of
//! [`types::Action`]s the embedding must perform: handler callbacks to invoke,
//! tasks to spawn, streams to shut down.  The socket work itself (bind,
//! connect, accept, the cryptographic handshake, the multiplexed session) is
//! done by the embedding, which feeds outcomes back in.
//!
//! Message passing between the embedding's tasks and the reactor goes over
//! bounded `futures` mpsc channels held by the service itself; sends from the
//! reactor toward a session are best effort (a full channel drops the
//! message), while the reactor's own inbox is drained on every tick.

pub mod channel;
pub mod context;
pub mod laws;
pub mod service;
pub mod types;
