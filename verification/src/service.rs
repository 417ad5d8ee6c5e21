//! The reactor itself: the registries it owns, the well-formedness invariant
//! that ties them together, and one verified operation per event the loop
//! consumes.
//!
//! Each operation returns the ordered [`Action`] sequence the embedding must
//! perform.  The relation spec functions (`rel_*`) pin every operation's
//! effect exactly; the laws in [`crate::laws`] are proved from them.

use vstd::prelude::*;

use crate::channel::mpsc_channel;
use crate::channel::receiver_try_recv;
use crate::channel::sender_clone;
use crate::channel::sender_try_send;
use crate::channel::Polled;
use crate::channel::CHANNEL_BUFFER;
use crate::context::keys_without;
use crate::context::ServiceContext;
use crate::context::ServiceControl;
use crate::types::Action;
use crate::types::ErrorKind;
use crate::types::Multiaddr;
use crate::types::ProtoConfig;
use crate::types::ProtocolId;
use crate::types::ProtocolInfo;
use crate::types::PublicKey;
use crate::types::ServiceError;
use crate::types::ServiceEvent;
use crate::types::ServiceTask;
use crate::types::SessionContext;
use crate::types::SessionEvent;
use crate::types::SessionId;
use crate::types::SessionType;

verus! {

/// The key bytes a session context carries, if any.
pub open spec fn ctx_key(ctx: SessionContext) -> Option<Seq<u8>> {
    match ctx.remote_pubkey {
        Some(pk) => Some(pk@),
        None => None,
    }
}

/// Whether a session context carries exactly these key bytes.
pub open spec fn has_key(ctx: SessionContext, k: Seq<u8>) -> bool {
    ctx_key(ctx) == Some(k)
}

/// The views of a sequence of addresses.
pub open spec fn addrs_views(s: Seq<Multiaddr>) -> Seq<Seq<u8>> {
    s.map_values(|a: Multiaddr| a@)
}

/// Whether some address in the sequence has these bytes.
pub open spec fn has_addr(s: Seq<Multiaddr>, a: Seq<u8>) -> bool {
    exists|i: int| 0 <= i < s.len() && s[i]@ == a
}

/// The key view of an optional public key.
pub open spec fn opt_key_view(k: Option<PublicKey>) -> Option<Seq<u8>> {
    match k {
        Some(pk) => Some(pk@),
        None => None,
    }
}

/// Whether a protocol config sequence yields a handler for this protocol at
/// the given tier (`session` true means the session tier).
pub open spec fn has_handle_spec(configs: Seq<ProtoConfig>, session: bool, proto_id: ProtocolId) -> bool {
    exists|i: int|
        0 <= i < configs.len() && configs[i].id == proto_id && (if session {
            configs[i].has_session_handle
        } else {
            configs[i].has_service_handle
        })
}

/// Whether the published protocol descriptions correspond one to one to the
/// configuration.
pub open spec fn infos_match(configs: Seq<ProtoConfig>, infos: Seq<ProtocolInfo>) -> bool {
    &&& infos.len() == configs.len()
    &&& forall|i: int|
        0 <= i < configs.len() ==> {
            &&& (#[trigger] infos[i]).id == configs[i].id
            &&& infos[i].name@ == configs[i].name@
            &&& infos[i].versions@.len() == configs[i].versions@.len()
            &&& forall|j: int|
                0 <= j < configs[i].versions@.len() ==> (#[trigger] infos[i].versions@[j])@
                    == configs[i].versions@[j]@
        }
}

/// The long-running service: every registry of the reactor, the channel ends
/// it owns, and the configuration it was built with.
pub struct Service {
    /// Per-protocol configuration, scanned linearly by id.
    pub protocol_configs: Vec<ProtoConfig>,
    /// One context per live session; ids are unique, and at most one live
    /// session carries any given remote public key.
    pub sessions: Vec<SessionContext>,
    /// Command-channel senders toward the session tasks, parallel to
    /// `sessions`.
    pub session_senders: Vec<futures::channel::mpsc::Sender<SessionEvent>>,
    /// The currently bound listen addresses; the acceptors live with the
    /// embedding.
    pub listens: Vec<Multiaddr>,
    /// Addresses with a pending outbound connect; the futures live with the
    /// embedding.
    pub dials: Vec<Multiaddr>,
    /// Shared deadline, in milliseconds, for dials and handshakes.
    pub timeout_millis: u64,
    /// In-flight outbound attempts, plus one when `forever` is set; the
    /// reactor terminates when this, `listens` and `sessions` are all empty.
    pub task_count: usize,
    /// Outbound sockets whose encrypted handshake is still running.
    pub handshakes_outbound: usize,
    /// The last session id assigned; the next open takes the successor.
    pub next_session: SessionId,
    /// Whether a cryptographic key pair is configured (fresh sockets then run
    /// the encrypted handshake before a session opens).
    pub has_key_pair: bool,
    /// Run-forever mode: pins `task_count` at one or more, so the
    /// termination predicate never trips.
    pub forever: bool,
    /// Set when one of the reactor's inboxes reports closed; the next tick
    /// then reports termination.
    pub shutdown: bool,
    /// Which (session, protocol) pairs have an active service-tier binding.
    pub session_service_protos: Vec<(SessionId, ProtocolId)>,
    /// Protocols whose service-level handler has been created (it lives until
    /// process end).
    pub service_proto_handles: Vec<ProtocolId>,
    /// Which (session, protocol) pairs hold a live session-level handler.
    pub session_proto_handles: Vec<(SessionId, ProtocolId)>,
    /// Transmission end of the session-event inbox, cloned out to every
    /// session and handshake task.
    pub session_event_sender: futures::channel::mpsc::Sender<SessionEvent>,
    /// The session-event inbox.
    pub session_event_receiver: futures::channel::mpsc::Receiver<SessionEvent>,
    /// The context handed to every handler callback.
    pub service_context: ServiceContext,
    /// The external-task inbox; its senders are the control handles.
    pub service_task_receiver: futures::channel::mpsc::Receiver<ServiceTask>,
}

impl Service {
    /// One when run-forever mode is set, else zero.
    pub open spec fn forever_one(self) -> int {
        if self.forever {
            1
        } else {
            0
        }
    }

    /// The task counter equals pending dials plus in-flight outbound
    /// handshakes plus the run-forever sentinel.
    pub open spec fn wf_counts(self) -> bool {
        self.task_count as int == self.dials@.len() + self.handshakes_outbound as int
            + self.forever_one()
    }

    /// Whether a session with this id is live.
    pub open spec fn live_id(self, id: SessionId) -> bool {
        exists|i: int| 0 <= i < self.sessions@.len() && (#[trigger] self.sessions@[i]).id == id
    }

    /// Whether a live session carries these remote key bytes.
    pub open spec fn key_live(self, k: Seq<u8>) -> bool {
        exists|i: int| 0 <= i < self.sessions@.len() && has_key(#[trigger] self.sessions@[i], k)
    }

    /// Whether `sid` is the id of a live session carrying these key bytes.
    pub open spec fn is_live_key_id(self, k: Seq<u8>, sid: SessionId) -> bool {
        exists|i: int|
            0 <= i < self.sessions@.len() && has_key(#[trigger] self.sessions@[i], k)
                && self.sessions@[i].id == sid
    }

    /// The registries are consistent: ids unique and no larger than the
    /// counter, at most one live session per remote key, handler bindings
    /// unique and attached to live sessions, one sender per session.
    pub open spec fn wf_registry(self) -> bool {
        &&& self.sessions@.len() == self.session_senders@.len()
        &&& forall|i: int, j: int|
            0 <= i < j < self.sessions@.len() ==> (#[trigger] self.sessions@[i]).id
                != (#[trigger] self.sessions@[j]).id
        &&& forall|i: int|
            0 <= i < self.sessions@.len() ==> 1 <= (#[trigger] self.sessions@[i]).id
                <= self.next_session
        &&& forall|i: int, j: int|
            0 <= i < j < self.sessions@.len() && (#[trigger] self.sessions@[i]).remote_pubkey
                is Some && (#[trigger] self.sessions@[j]).remote_pubkey is Some
                ==> ctx_key(self.sessions@[i]) != ctx_key(self.sessions@[j])
        &&& forall|i: int, j: int|
            0 <= i < j < self.session_service_protos@.len()
                ==> (#[trigger] self.session_service_protos@[i])
                != (#[trigger] self.session_service_protos@[j])
        &&& forall|i: int, j: int|
            0 <= i < j < self.session_proto_handles@.len()
                ==> (#[trigger] self.session_proto_handles@[i])
                != (#[trigger] self.session_proto_handles@[j])
        &&& forall|i: int, j: int|
            0 <= i < j < self.service_proto_handles@.len()
                ==> (#[trigger] self.service_proto_handles@[i])
                != (#[trigger] self.service_proto_handles@[j])
        &&& forall|i: int|
            0 <= i < self.session_service_protos@.len() ==> self.live_id(
                (#[trigger] self.session_service_protos@[i]).0,
            )
        &&& forall|i: int|
            0 <= i < self.session_proto_handles@.len() ==> self.live_id(
                (#[trigger] self.session_proto_handles@[i]).0,
            )
    }

    /// Full well-formedness.
    pub open spec fn wf(self) -> bool {
        self.wf_registry() && self.wf_counts()
    }

    /// The reactor has run out of work: nothing bound, nothing in flight,
    /// nobody connected.
    pub open spec fn terminate_predicate(self) -> bool {
        self.listens@.len() == 0 && self.task_count == 0 && self.sessions@.len() == 0
    }

    /// The registries and configuration of `post` equal those of `pre`
    /// (channel ends and the context are spoken of separately).
    pub open spec fn unchanged_core(pre: Service, post: Service) -> bool {
        &&& post.protocol_configs == pre.protocol_configs
        &&& post.sessions == pre.sessions
        &&& post.listens == pre.listens
        &&& post.dials == pre.dials
        &&& post.timeout_millis == pre.timeout_millis
        &&& post.task_count == pre.task_count
        &&& post.handshakes_outbound == pre.handshakes_outbound
        &&& post.next_session == pre.next_session
        &&& post.has_key_pair == pre.has_key_pair
        &&& post.forever == pre.forever
        &&& post.shutdown == pre.shutdown
        &&& post.session_service_protos == pre.session_service_protos
        &&& post.service_proto_handles == pre.service_proto_handles
        &&& post.session_proto_handles == pre.session_proto_handles
    }

    /// The configuration and mode flags of `post` equal those of `pre`.
    pub open spec fn same_config(pre: Service, post: Service) -> bool {
        &&& post.protocol_configs == pre.protocol_configs
        &&& post.timeout_millis == pre.timeout_millis
        &&& post.has_key_pair == pre.has_key_pair
        &&& post.forever == pre.forever
    }

    /// The channel ends of `post` equal those of `pre`.
    pub open spec fn same_io(pre: Service, post: Service) -> bool {
        &&& post.session_event_sender == pre.session_event_sender
        &&& post.session_event_receiver == pre.session_event_receiver
        &&& post.service_task_receiver == pre.service_task_receiver
    }
}

// ---------------------------------------------------------------------------
// Small verified helpers on plain data.
// ---------------------------------------------------------------------------

/// Byte-for-byte equality of two buffers.
pub fn bytes_eq(a: &Vec<u8>, b: &Vec<u8>) -> (r: bool)
    ensures
        r == (a@ == b@),
{
    if a.len() != b.len() {
        proof {
            assert(a@ != b@);
        }
        return false;
    }
    let n = a.len();
    let mut i: usize = 0;
    while i < n
        invariant
            i <= n,
            n == a@.len(),
            n == b@.len(),
            forall|j: int| 0 <= j < i ==> a@[j] == b@[j],
        decreases n - i,
    {
        if a[i] != b[i] {
            proof {
                assert(a@ != b@);
            }
            return false;
        }
        i += 1;
    }
    proof {
        assert(a@ =~= b@);
    }
    true
}

/// A fresh buffer with the same bytes.
pub fn clone_bytes(a: &Vec<u8>) -> (r: Vec<u8>)
    ensures
        r@ == a@,
{
    let mut r: Vec<u8> = Vec::new();
    let n = a.len();
    let mut i: usize = 0;
    while i < n
        invariant
            i <= n,
            n == a@.len(),
            r@ == a@.subrange(0, i as int),
        decreases n - i,
    {
        r.push(a[i]);
        proof {
            assert(r@ =~= a@.subrange(0, i + 1));
        }
        i += 1;
    }
    proof {
        assert(a@.subrange(0, n as int) =~= a@);
    }
    r
}

/// A fresh address with the same bytes.
pub fn clone_addr(a: &Multiaddr) -> (r: Multiaddr)
    ensures
        r@ == a@,
{
    Multiaddr { bytes: clone_bytes(&a.bytes) }
}

/// A fresh optional key with the same bytes.
pub fn clone_opt_key(k: &Option<PublicKey>) -> (r: Option<PublicKey>)
    ensures
        opt_key_view(r) == opt_key_view(*k),
{
    match k {
        Some(pk) => Some(PublicKey { bytes: clone_bytes(&pk.bytes) }),
        None => None,
    }
}

/// Whether the pending list holds an address with these bytes.
pub fn contains_addr(v: &Vec<Multiaddr>, a: &Multiaddr) -> (r: bool)
    ensures
        r == has_addr(v@, a@),
{
    let n = v.len();
    let mut i: usize = 0;
    while i < n
        invariant
            i <= n,
            n == v@.len(),
            forall|j: int| 0 <= j < i ==> v@[j]@ != a@,
        decreases n - i,
    {
        if bytes_eq(&v[i].bytes, &a.bytes) {
            return true;
        }
        i += 1;
    }
    false
}

/// Whether the list contains this id.
pub fn contains_u64(v: &Vec<u64>, x: u64) -> (r: bool)
    ensures
        r == v@.contains(x),
{
    let n = v.len();
    let mut i: usize = 0;
    while i < n
        invariant
            i <= n,
            n == v@.len(),
            forall|j: int| 0 <= j < i ==> v@[j] != x,
        decreases n - i,
    {
        if v[i] == x {
            return true;
        }
        i += 1;
    }
    proof {
        assert(!v@.contains(x));
    }
    false
}

/// Whether the list contains this pair.
pub fn pair_in(v: &Vec<(u64, u64)>, a: u64, b: u64) -> (r: bool)
    ensures
        r == v@.contains((a, b)),
{
    let n = v.len();
    let mut i: usize = 0;
    while i < n
        invariant
            i <= n,
            n == v@.len(),
            forall|j: int| 0 <= j < i ==> v@[j] != (a, b),
        decreases n - i,
    {
        if v[i].0 == a && v[i].1 == b {
            proof {
                assert(v@[i as int] == (a, b));
            }
            return true;
        }
        i += 1;
    }
    proof {
        assert(!v@.contains((a, b)));
    }
    false
}

// ---------------------------------------------------------------------------
// Construction and accessors.
// ---------------------------------------------------------------------------

impl Service {
    /// A fresh service: no sessions, no dials, no listens; the task counter
    /// holds the run-forever sentinel alone.
    pub fn new(
        protocol_configs: Vec<ProtoConfig>,
        has_key_pair: bool,
        forever: bool,
        timeout_millis: u64,
    ) -> (r: Service)
        ensures
            r.wf(),
            r.protocol_configs == protocol_configs,
            r.sessions@.len() == 0,
            r.session_senders@.len() == 0,
            r.listens@.len() == 0,
            r.dials@.len() == 0,
            r.timeout_millis == timeout_millis,
            r.task_count == r.forever_one(),
            r.handshakes_outbound == 0,
            r.next_session == 0,
            r.has_key_pair == has_key_pair,
            r.forever == forever,
            !r.shutdown,
            r.session_service_protos@.len() == 0,
            r.service_proto_handles@.len() == 0,
            r.session_proto_handles@.len() == 0,
            infos_match(protocol_configs@, r.service_context.proto_infos@),
            r.service_context.listens@.len() == 0,
            r.service_context.notify_keys@.len() == 0,
    {
        let (session_event_sender, session_event_receiver) = mpsc_channel::<SessionEvent>(
            CHANNEL_BUFFER,
        );
        let (service_task_sender, service_task_receiver) = mpsc_channel::<ServiceTask>(
            CHANNEL_BUFFER,
        );
        let proto_infos = build_proto_infos(&protocol_configs);
        let service_context = ServiceContext::new(
            ServiceControl { sender: service_task_sender },
            proto_infos,
        );
        Service {
            protocol_configs,
            sessions: Vec::new(),
            session_senders: Vec::new(),
            listens: Vec::new(),
            dials: Vec::new(),
            timeout_millis,
            task_count: if forever {
                1
            } else {
                0
            },
            handshakes_outbound: 0,
            next_session: 0,
            has_key_pair,
            forever,
            shutdown: false,
            session_service_protos: Vec::new(),
            service_proto_handles: Vec::new(),
            session_proto_handles: Vec::new(),
            session_event_sender,
            session_event_receiver,
            service_context,
            service_task_receiver,
        }
    }

    /// The service's protocol configuration.
    pub fn protocol_configs(&self) -> (r: &Vec<ProtoConfig>)
        ensures
            r == self.protocol_configs,
    {
        &self.protocol_configs
    }

    /// The control sink; clones of it submit tasks from outside the reactor.
    pub fn control(&mut self) -> (r: &mut ServiceControl)
        ensures
            *r == old(self).service_context.control,
            final(self).service_context.control == *final(r),
            final(self).service_context.listens == old(self).service_context.listens,
            final(self).service_context.proto_infos == old(self).service_context.proto_infos,
            final(self).service_context.notify_keys == old(self).service_context.notify_keys,
            Service::unchanged_core(*old(self), *final(self)),
            Service::same_io(*old(self), *final(self)),
            final(self).session_senders == old(self).session_senders,
    {
        self.service_context.control()
    }

    /// A transmission end of the session-event inbox, for the embedding to
    /// hand to its session and handshake tasks.
    pub fn event_sender(&self) -> futures::channel::mpsc::Sender<SessionEvent> {
        sender_clone(&self.session_event_sender)
    }

    /// Record an address the embedding has bound, and publish the fresh
    /// snapshot to the handler context.
    pub fn listen(&mut self, address: Multiaddr)
        requires
            old(self).wf(),
        ensures
            final(self).wf(),
            rel_listen(*old(self), *final(self), address),
            final(self).listens@ == old(self).listens@.push(address),
            addrs_views(final(self).service_context.listens@) == addrs_views(
                final(self).listens@,
            ),
            final(self).sessions == old(self).sessions,
            final(self).session_senders == old(self).session_senders,
            final(self).dials == old(self).dials,
            final(self).task_count == old(self).task_count,
            final(self).handshakes_outbound == old(self).handshakes_outbound,
            final(self).next_session == old(self).next_session,
            final(self).shutdown == old(self).shutdown,
            final(self).session_service_protos == old(self).session_service_protos,
            final(self).service_proto_handles == old(self).service_proto_handles,
            final(self).session_proto_handles == old(self).session_proto_handles,
            Service::same_config(*old(self), *final(self)),
            Service::same_io(*old(self), *final(self)),
            final(self).service_context.control == old(self).service_context.control,
            final(self).service_context.proto_infos == old(self).service_context.proto_infos,
            final(self).service_context.notify_keys == old(self).service_context.notify_keys,
    {
        self.listens.push(address);
        let snapshot = clone_addrs(&self.listens);
        self.service_context.update_listens(snapshot);
    }
}

// ---------------------------------------------------------------------------
// Lookups, dialing, and sends toward sessions.
// ---------------------------------------------------------------------------

impl Service {
    /// The position of a live session in the registry, by id.
    pub fn session_index(&self, id: SessionId) -> (r: Option<usize>)
        ensures
            match r {
                Some(i) => i < self.sessions@.len() && self.sessions@[i as int].id == id,
                None => !self.live_id(id),
            },
    {
        let n = self.sessions.len();
        let mut i: usize = 0;
        while i < n
            invariant
                i <= n,
                n == self.sessions@.len(),
                forall|j: int| 0 <= j < i ==> (#[trigger] self.sessions@[j]).id != id,
            decreases n - i,
        {
            if self.sessions[i].id == id {
                return Some(i);
            }
            i += 1;
        }
        None
    }

    /// The id of the live session carrying these key bytes, if one does.
    pub fn find_session_by_key(&self, key: &PublicKey) -> (r: Option<SessionId>)
        ensures
            match r {
                Some(sid) => self.is_live_key_id(key@, sid),
                None => !self.key_live(key@),
            },
    {
        let n = self.sessions.len();
        let mut i: usize = 0;
        while i < n
            invariant
                i <= n,
                n == self.sessions@.len(),
                forall|j: int| 0 <= j < i ==> !has_key(#[trigger] self.sessions@[j], key@),
            decreases n - i,
        {
            match &self.sessions[i].remote_pubkey {
                Some(pk) => {
                    if bytes_eq(&pk.bytes, &key.bytes) {
                        proof {
                            assert(has_key(self.sessions@[i as int], key@));
                        }
                        return Some(self.sessions[i].id);
                    }
                },
                None => {},
            }
            i += 1;
        }
        None
    }

    /// Whether the configuration yields a handler for this protocol at the
    /// given tier (`session` true means the session tier); the factory itself
    /// lives with the embedding.
    pub fn proto_handle(&self, session: bool, proto_id: ProtocolId) -> (r: bool)
        ensures
            r == has_handle_spec(self.protocol_configs@, session, proto_id),
    {
        let n = self.protocol_configs.len();
        let mut i: usize = 0;
        while i < n
            invariant
                i <= n,
                n == self.protocol_configs@.len(),
                forall|j: int|
                    0 <= j < i ==> !((#[trigger] self.protocol_configs@[j]).id == proto_id && (
                    if session {
                        self.protocol_configs@[j].has_session_handle
                    } else {
                        self.protocol_configs@[j].has_service_handle
                    })),
            decreases n - i,
        {
            let c = &self.protocol_configs[i];
            if c.id == proto_id {
                if session && c.has_session_handle {
                    return true;
                }
                if !session && c.has_service_handle {
                    return true;
                }
            }
            i += 1;
        }
        false
    }

    /// Start one outbound attempt: remember the address as pending, count it,
    /// and ask the embedding to begin the connect with the shared deadline.
    /// No duplicate check is made here; the `Dial` task makes one.
    pub fn dial(&mut self, address: Multiaddr) -> (r: Vec<Action>)
        requires
            old(self).wf(),
            old(self).task_count < usize::MAX,
        ensures
            final(self).wf(),
            rel_dial_enqueue(*old(self), *final(self), address, r@),
    {
        let mut acts: Vec<Action> = Vec::new();
        let act = self.dial_inner(address);
        acts.push(act);
        acts
    }

    /// The unchecked enqueue shared by `dial` and the `Dial` task.
    fn dial_inner(&mut self, address: Multiaddr) -> (r: Action)
        requires
            old(self).wf(),
            old(self).task_count < usize::MAX,
        ensures
            final(self).wf(),
            rel_dial_enqueue(*old(self), *final(self), address, seq![r]),
    {
        self.dials.push(clone_addr(&address));
        self.task_count += 1;
        proof {
            assert(self.dials@.subrange(0, old(self).dials@.len() as int) =~= old(self).dials@);
        }
        Action::StartDial { address }
    }

    /// Send one payload to one session's protocol.  Exactly when the id is
    /// live, exactly one `ProtocolMessage { id: session_id, proto_id, data }`
    /// is offered to that session's channel (and no other session's), best
    /// effort: a full channel drops it silently.  Returns whether the offer
    /// was made.
    pub fn send_message(
        &mut self,
        session_id: SessionId,
        proto_id: ProtocolId,
        data: &Vec<u8>,
    ) -> (r: bool)
        requires
            old(self).wf(),
        ensures
            final(self).wf(),
            r == old(self).live_id(session_id),
            Service::unchanged_core(*old(self), *final(self)),
            Service::same_io(*old(self), *final(self)),
            final(self).service_context == old(self).service_context,
            final(self).session_senders@.len() == old(self).session_senders@.len(),
    {
        match self.session_index(session_id) {
            Some(i) => {
                let ev = SessionEvent::ProtocolMessage {
                    id: session_id,
                    proto_id,
                    data: clone_bytes(data),
                };
                let _ = sender_try_send(&mut self.session_senders[i], ev);
                proof {
                    assert(old(self).live_id(session_id));
                }
                true
            },
            None => false,
        }
    }

    /// Which live sessions a targeted send addresses: all of them when no
    /// list is given, else exactly those whose id the list names, in
    /// registry order.
    pub fn broadcast_targets(&self, ids: &Option<Vec<SessionId>>) -> (r: Vec<SessionId>)
        ensures
            r@ == broadcast_targets_spec(self.sessions@, *ids),
    {
        let mut r: Vec<SessionId> = Vec::new();
        let n = self.sessions.len();
        let mut i: usize = 0;
        while i < n
            invariant
                i <= n,
                n == self.sessions@.len(),
                r@ == broadcast_targets_spec(self.sessions@.subrange(0, i as int), *ids),
            decreases n - i,
        {
            let sid = self.sessions[i].id;
            proof {
                assert(self.sessions@.subrange(0, i + 1).drop_last() == self.sessions@.subrange(
                    0,
                    i as int,
                ));
                assert(self.sessions@.subrange(0, i + 1).last() == self.sessions@[i as int]);
            }
            let chosen = match ids {
                None => true,
                Some(list) => contains_u64(list, sid),
            };
            if chosen {
                r.push(sid);
            }
            i += 1;
        }
        proof {
            assert(self.sessions@.subrange(0, n as int) == self.sessions@);
        }
        r
    }

    /// Send one payload to the chosen sessions' protocol: with `None` every
    /// live session, with `Some(v)` exactly the live sessions `v` names, in
    /// registry order; sessions outside the list are offered nothing.  Each
    /// chosen session's channel is offered exactly one
    /// `ProtocolMessage { id, proto_id, data }`, best effort: a full channel
    /// drops that peer's copy without stalling the reactor.  Returns the ids
    /// offered, in order.
    pub fn filter_broadcast(
        &mut self,
        ids: Option<Vec<SessionId>>,
        proto_id: ProtocolId,
        data: &Vec<u8>,
    ) -> (r: Vec<SessionId>)
        requires
            old(self).wf(),
        ensures
            final(self).wf(),
            r@ == broadcast_targets_spec(old(self).sessions@, ids),
            Service::unchanged_core(*old(self), *final(self)),
            Service::same_io(*old(self), *final(self)),
            final(self).service_context == old(self).service_context,
            final(self).session_senders@.len() == old(self).session_senders@.len(),
    {
        match ids {
            None => self.broadcast(proto_id, data),
            Some(list) => {
                let mut offered: Vec<SessionId> = Vec::new();
                let n = self.sessions.len();
                let mut i: usize = 0;
                while i < n
                    invariant
                        i <= n,
                        n == self.sessions@.len(),
                        self.wf(),
                        Service::unchanged_core(*old(self), *self),
                        Service::same_io(*old(self), *self),
                        self.service_context == old(self).service_context,
                        self.session_senders@.len() == old(self).session_senders@.len(),
                        offered@ == broadcast_targets_spec(
                            old(self).sessions@.subrange(0, i as int),
                            Some(list),
                        ),
                    decreases n - i,
                {
                    let sid = self.sessions[i].id;
                    proof {
                        assert(old(self).sessions@.subrange(0, i + 1).drop_last() == old(
                            self,
                        ).sessions@.subrange(0, i as int));
                        assert(old(self).sessions@.subrange(0, i + 1).last() == old(
                            self,
                        ).sessions@[i as int]);
                    }
                    if contains_u64(&list, sid) {
                        let ev = SessionEvent::ProtocolMessage {
                            id: sid,
                            proto_id,
                            data: clone_bytes(data),
                        };
                        let _ = sender_try_send(&mut self.session_senders[i], ev);
                        offered.push(sid);
                    }
                    i += 1;
                }
                proof {
                    assert(old(self).sessions@.subrange(0, n as int) == old(self).sessions@);
                }
                offered
            },
        }
    }

    /// Send one payload to every live session's protocol: each live session's
    /// channel is offered exactly one `ProtocolMessage { id, proto_id, data }`,
    /// best effort per session.  Returns the ids offered, in registry order.
    pub fn broadcast(&mut self, proto_id: ProtocolId, data: &Vec<u8>) -> (r: Vec<SessionId>)
        requires
            old(self).wf(),
        ensures
            final(self).wf(),
            r@ == broadcast_targets_spec(old(self).sessions@, Option::<Vec<SessionId>>::None),
            Service::unchanged_core(*old(self), *final(self)),
            Service::same_io(*old(self), *final(self)),
            final(self).service_context == old(self).service_context,
            final(self).session_senders@.len() == old(self).session_senders@.len(),
    {
        let mut offered: Vec<SessionId> = Vec::new();
        let n = self.sessions.len();
        let mut i: usize = 0;
        while i < n
            invariant
                i <= n,
                n == self.sessions@.len(),
                self.wf(),
                Service::unchanged_core(*old(self), *self),
                Service::same_io(*old(self), *self),
                self.service_context == old(self).service_context,
                self.session_senders@.len() == old(self).session_senders@.len(),
                offered@ == broadcast_targets_spec(
                    old(self).sessions@.subrange(0, i as int),
                    Option::<Vec<SessionId>>::None,
                ),
            decreases n - i,
        {
            let sid = self.sessions[i].id;
            proof {
                assert(old(self).sessions@.subrange(0, i + 1).drop_last() == old(
                    self,
                ).sessions@.subrange(0, i as int));
                assert(old(self).sessions@.subrange(0, i + 1).last() == old(
                    self,
                ).sessions@[i as int]);
            }
            let ev = SessionEvent::ProtocolMessage { id: sid, proto_id, data: clone_bytes(data) };
            let _ = sender_try_send(&mut self.session_senders[i], ev);
            offered.push(sid);
            i += 1;
        }
        proof {
            assert(old(self).sessions@.subrange(0, n as int) == old(self).sessions@);
        }
        offered
    }
}

/// Enqueueing one dial appends the address, counts one more in-flight task,
/// and asks the embedding for the connect; nothing else moves.
pub open spec fn rel_dial_enqueue(
    pre: Service,
    post: Service,
    address: Multiaddr,
    acts: Seq<Action>,
) -> bool {
    &&& post.dials@.len() == pre.dials@.len() + 1
    &&& post.dials@.subrange(0, pre.dials@.len() as int) == pre.dials@
    &&& post.dials@.last()@ == address@
    &&& post.task_count == pre.task_count + 1
    &&& acts == seq![Action::StartDial { address }]
    &&& post.sessions == pre.sessions
    &&& post.session_senders == pre.session_senders
    &&& post.listens == pre.listens
    &&& post.handshakes_outbound == pre.handshakes_outbound
    &&& post.next_session == pre.next_session
    &&& post.shutdown == pre.shutdown
    &&& post.session_service_protos == pre.session_service_protos
    &&& post.service_proto_handles == pre.service_proto_handles
    &&& post.session_proto_handles == pre.session_proto_handles
    &&& Service::same_config(pre, post)
    &&& Service::same_io(pre, post)
    &&& post.service_context == pre.service_context
}

// ---------------------------------------------------------------------------
// Session opening: handshake outcomes and the identity invariant.
// ---------------------------------------------------------------------------

/// Whether an open with this key must be rejected: some live session already
/// carries the same remote key bytes.
pub open spec fn open_rejected(pre: Service, key: Option<PublicKey>) -> bool {
    key matches Some(k) && pre.key_live(k@)
}

/// The error of a rejected duplicate: a `RepeatedConnection` naming a live
/// session with the same key, wrapped for the side that brought the socket.
pub open spec fn rejected_error_matches(
    pre: Service,
    key: Option<PublicKey>,
    address: Multiaddr,
    ty: SessionType,
    e: ServiceError,
) -> bool {
    &&& key is Some
    &&& match e {
        ServiceError::DialerError { address: a, error } => {
            &&& ty is Outbound
            &&& a == address
            &&& err_is_live_repeat(pre, key, error)
        },
        ServiceError::ListenError { address: a, error } => {
            &&& ty is Inbound
            &&& a == address
            &&& err_is_live_repeat(pre, key, error)
        },
    }
}

/// The error names a live session that carries the colliding key.
pub open spec fn err_is_live_repeat(pre: Service, key: Option<PublicKey>, error: ErrorKind) -> bool {
    &&& error matches ErrorKind::RepeatedConnection(eid)
    &&& key matches Some(k)
    &&& pre.is_live_key_id(k@, eid)
}

/// One session open, accepted or rejected.  On rejection nothing moves and
/// the embedding is told to shut the new stream down and deliver the error.
/// On acceptance the successor id is assigned, one context and one command
/// sender are appended, and the embedding spawns the session (the outbound
/// side opening every configured protocol) and delivers `SessionOpen`.
/// The in-flight counters (`task_count`, `handshakes_outbound`, `dials`) are
/// constrained by the callers, not here.
pub open spec fn rel_session_open(
    pre: Service,
    post: Service,
    key: Option<PublicKey>,
    address: Multiaddr,
    ty: SessionType,
    acts: Seq<Action>,
    accepted: bool,
) -> bool {
    if open_rejected(pre, key) {
        &&& !accepted
        &&& post.sessions == pre.sessions
        &&& post.session_senders == pre.session_senders
        &&& post.next_session == pre.next_session
        &&& post.dials == pre.dials
        &&& post.listens == pre.listens
        &&& post.shutdown == pre.shutdown
        &&& post.session_service_protos == pre.session_service_protos
        &&& post.service_proto_handles == pre.service_proto_handles
        &&& post.session_proto_handles == pre.session_proto_handles
        &&& Service::same_config(pre, post)
        &&& Service::same_io(pre, post)
        &&& post.service_context == pre.service_context
        &&& acts.len() == 2
        &&& acts[0] is ShutdownStream
        &&& acts[1] matches Action::HandleError(e) && rejected_error_matches(
            pre,
            key,
            address,
            ty,
            e,
        )
    } else {
        &&& accepted
        &&& post.next_session == pre.next_session + 1
        &&& post.sessions@.len() == pre.sessions@.len() + 1
        &&& post.sessions@.subrange(0, pre.sessions@.len() as int) == pre.sessions@
        &&& post.sessions@.last().id == post.next_session
        &&& post.sessions@.last().ty == ty
        &&& post.sessions@.last().address@ == address@
        &&& opt_key_view(post.sessions@.last().remote_pubkey) == opt_key_view(key)
        &&& post.session_senders@.len() == pre.session_senders@.len() + 1
        &&& acts.len() == 2
        &&& acts[0] == Action::SpawnSession {
            session_id: (pre.next_session + 1) as SessionId,
            ty,
            open_all_protocols: ty is Outbound,
        }
        &&& acts[1] == Action::HandleEvent(
            ServiceEvent::SessionOpen {
                id: (pre.next_session + 1) as SessionId,
                address,
                ty,
                public_key: key,
            },
        )
        &&& post.listens == pre.listens
        &&& post.shutdown == pre.shutdown
        &&& post.session_service_protos == pre.session_service_protos
        &&& post.service_proto_handles == pre.service_proto_handles
        &&& post.session_proto_handles == pre.session_proto_handles
        &&& Service::same_config(pre, post)
        &&& Service::same_io(pre, post)
        &&& post.service_context == pre.service_context
    }
}

/// Driving one fresh socket: with a key pair configured the embedding runs
/// the encrypted handshake (an outbound one is counted in flight); without
/// one the session opens at once, and an outbound socket's task resolves.
pub open spec fn rel_handshake(
    pre: Service,
    post: Service,
    ty: SessionType,
    address: Multiaddr,
    acts: Seq<Action>,
    accepted: bool,
) -> bool {
    if pre.has_key_pair {
        &&& acts.len() == 1
        &&& acts[0] == Action::StartHandshake { ty, address }
        &&& !accepted
        &&& post.handshakes_outbound == pre.handshakes_outbound + (if ty is Outbound {
            1int
        } else {
            0
        })
        &&& post.task_count == pre.task_count
        &&& post.dials == pre.dials
        &&& post.sessions == pre.sessions
        &&& post.session_senders == pre.session_senders
        &&& post.next_session == pre.next_session
        &&& post.listens == pre.listens
        &&& post.shutdown == pre.shutdown
        &&& post.session_service_protos == pre.session_service_protos
        &&& post.service_proto_handles == pre.service_proto_handles
        &&& post.session_proto_handles == pre.session_proto_handles
        &&& Service::same_config(pre, post)
        &&& Service::same_io(pre, post)
        &&& post.service_context == pre.service_context
    } else {
        &&& rel_session_open(pre, post, None, address, ty, acts, accepted)
        &&& accepted
        &&& post.task_count == pre.task_count - (if ty is Outbound {
            1int
        } else {
            0
        })
        &&& post.handshakes_outbound == pre.handshakes_outbound
        &&& post.dials == pre.dials
    }
}

impl Service {
    /// Open a session over an authenticated (or plain) stream the embedding
    /// holds.  A duplicate remote key is rejected before any id is assigned;
    /// otherwise the returned receiver is the command channel of the new
    /// session, to be given to its task.
    pub fn session_open(
        &mut self,
        remote_pubkey: Option<PublicKey>,
        address: Multiaddr,
        ty: SessionType,
    ) -> (r: (Vec<Action>, Option<(SessionId, futures::channel::mpsc::Receiver<SessionEvent>)>))
        requires
            old(self).wf_registry(),
            old(self).next_session < u64::MAX,
        ensures
            final(self).wf_registry(),
            rel_session_open(
                *old(self),
                *final(self),
                remote_pubkey,
                address,
                ty,
                r.0@,
                r.1 is Some,
            ),
            final(self).task_count == old(self).task_count,
            final(self).handshakes_outbound == old(self).handshakes_outbound,
            final(self).dials == old(self).dials,
            r.1 matches Some(p) ==> p.0 == final(self).next_session,
    {
        let mut acts: Vec<Action> = Vec::new();
        let duplicate_of: Option<SessionId> = match &remote_pubkey {
            Some(key) => self.find_session_by_key(key),
            None => None,
        };
        match duplicate_of {
            Some(eid) => {
                acts.push(Action::ShutdownStream);
                let error = ErrorKind::RepeatedConnection(eid);
                if ty == SessionType::Outbound {
                    acts.push(Action::HandleError(ServiceError::DialerError { address, error }));
                } else {
                    acts.push(Action::HandleError(ServiceError::ListenError { address, error }));
                }
                (acts, None)
            },
            None => {
                self.next_session += 1;
                let id = self.next_session;
                let (tx, rx) = mpsc_channel::<SessionEvent>(CHANNEL_BUFFER);
                let ctx = SessionContext {
                    id,
                    address: clone_addr(&address),
                    ty,
                    remote_pubkey: clone_opt_key(&remote_pubkey),
                };
                self.sessions.push(ctx);
                self.session_senders.push(tx);
                proof {
                    let pre = *old(self);
                    let n = pre.sessions@.len() as int;
                    assert(self.sessions@.subrange(0, n) =~= pre.sessions@);
                    assert forall|x: SessionId| pre.live_id(x) implies self.live_id(x) by {
                        let j = choose|j: int|
                            0 <= j < pre.sessions@.len() && (#[trigger] pre.sessions@[j]).id == x;
                        assert(self.sessions@[j].id == x);
                    }
                }
                acts.push(
                    Action::SpawnSession {
                        session_id: id,
                        ty,
                        open_all_protocols: ty == SessionType::Outbound,
                    },
                );
                acts.push(
                    Action::HandleEvent(
                        ServiceEvent::SessionOpen { id, address, ty, public_key: remote_pubkey },
                    ),
                );
                (acts, Some((id, rx)))
            },
        }
    }

    /// Drive one fresh socket toward a session: spawn the encrypted handshake
    /// when a key pair is configured, else open the session at once.
    fn handshake(
        &mut self,
        ty: SessionType,
        address: Multiaddr,
    ) -> (r: (Vec<Action>, Option<(SessionId, futures::channel::mpsc::Receiver<SessionEvent>)>))
        requires
            old(self).wf_registry(),
            old(self).next_session < u64::MAX,
            ty is Outbound ==> old(self).task_count as int == old(self).dials@.len() + old(
                self,
            ).handshakes_outbound + old(self).forever_one() + 1,
            ty is Inbound ==> old(self).wf_counts(),
        ensures
            final(self).wf(),
            rel_handshake(*old(self), *final(self), ty, address, r.0@, r.1 is Some),
            r.1 matches Some(p) ==> p.0 == final(self).next_session,
    {
        if self.has_key_pair {
            if ty == SessionType::Outbound {
                self.handshakes_outbound += 1;
            }
            let mut acts: Vec<Action> = Vec::new();
            acts.push(Action::StartHandshake { ty, address });
            (acts, None)
        } else {
            let r = self.session_open(None, address, ty);
            if ty == SessionType::Outbound {
                self.task_count -= 1;
            }
            r
        }
    }

    /// An outbound connect completed: hand the socket to the handshake stage.
    /// An address with no pending dial is ignored.
    pub fn dial_ready(
        &mut self,
        address: Multiaddr,
    ) -> (r: (Vec<Action>, Option<(SessionId, futures::channel::mpsc::Receiver<SessionEvent>)>))
        requires
            old(self).wf(),
            old(self).next_session < u64::MAX,
        ensures
            final(self).wf(),
            rel_dial_ready(*old(self), *final(self), address, r.0@, r.1 is Some),
            r.1 matches Some(p) ==> p.0 == final(self).next_session,
    {
        match self.find_dial(&address) {
            Some(k) => {
                self.dials.remove(k);
                self.handshake(SessionType::Outbound, address)
            },
            None => (Vec::new(), None),
        }
    }

    /// An outbound connect failed (transport, timer, or deadline): forget the
    /// pending dial, resolve its task, and deliver the dialer error.  An
    /// address with no pending dial is ignored.
    pub fn dial_error(&mut self, address: Multiaddr, error: ErrorKind) -> (r: Vec<Action>)
        requires
            old(self).wf(),
        ensures
            final(self).wf(),
            rel_dial_error(*old(self), *final(self), address, error, r@),
    {
        match self.find_dial(&address) {
            Some(k) => {
                self.dials.remove(k);
                self.task_count -= 1;
                let mut acts: Vec<Action> = Vec::new();
                acts.push(Action::HandleError(ServiceError::DialerError { address, error }));
                acts
            },
            None => Vec::new(),
        }
    }

    /// An inbound socket arrived on a listener: hand it to the handshake
    /// stage (inbound sockets are not counted as tasks).
    pub fn accept_ready(
        &mut self,
        address: Multiaddr,
    ) -> (r: (Vec<Action>, Option<(SessionId, futures::channel::mpsc::Receiver<SessionEvent>)>))
        requires
            old(self).wf(),
            old(self).next_session < u64::MAX,
        ensures
            final(self).wf(),
            rel_handshake(*old(self), *final(self), SessionType::Inbound, address, r.0@, r.1
                is Some),
            r.1 matches Some(p) ==> p.0 == final(self).next_session,
    {
        self.handshake(SessionType::Inbound, address)
    }

    /// A listener failed: drop it, deliver the listen error, and publish the
    /// fresh address snapshot; the other listeners continue.
    pub fn listen_error(&mut self, address: Multiaddr, error: ErrorKind) -> (r: Vec<Action>)
        requires
            old(self).wf(),
        ensures
            final(self).wf(),
            rel_listen_error(*old(self), *final(self), address, error, r@),
    {
        let k = self.find_listen(&address);
        match k {
            Some(k) => {
                self.listens.remove(k);
            },
            None => {},
        }
        let snapshot = clone_addrs(&self.listens);
        self.service_context.update_listens(snapshot);
        let mut acts: Vec<Action> = Vec::new();
        acts.push(Action::HandleError(ServiceError::ListenError { address, error }));
        acts
    }

    /// The position of a pending dial with these address bytes.
    fn find_dial(&self, address: &Multiaddr) -> (r: Option<usize>)
        ensures
            match r {
                Some(k) => k < self.dials@.len() && self.dials@[k as int]@ == address@,
                None => !has_addr(self.dials@, address@),
            },
    {
        let n = self.dials.len();
        let mut i: usize = 0;
        while i < n
            invariant
                i <= n,
                n == self.dials@.len(),
                forall|j: int| 0 <= j < i ==> (#[trigger] self.dials@[j])@ != address@,
            decreases n - i,
        {
            if bytes_eq(&self.dials[i].bytes, &address.bytes) {
                return Some(i);
            }
            i += 1;
        }
        None
    }

    /// The position of a bound listen address with these bytes.
    fn find_listen(&self, address: &Multiaddr) -> (r: Option<usize>)
        ensures
            match r {
                Some(k) => k < self.listens@.len() && self.listens@[k as int]@ == address@,
                None => !has_addr(self.listens@, address@),
            },
    {
        let n = self.listens.len();
        let mut i: usize = 0;
        while i < n
            invariant
                i <= n,
                n == self.listens@.len(),
                forall|j: int| 0 <= j < i ==> (#[trigger] self.listens@[j])@ != address@,
            decreases n - i,
        {
            if bytes_eq(&self.listens[i].bytes, &address.bytes) {
                return Some(i);
            }
            i += 1;
        }
        None
    }
}

/// The ids of the sessions a targeted send addresses: every session when
/// `ids` is `None`, else those whose id the list names, in registry order.
pub open spec fn broadcast_targets_spec(
    sessions: Seq<SessionContext>,
    ids: Option<Vec<SessionId>>,
) -> Seq<SessionId>
    decreases sessions.len(),
{
    if sessions.len() == 0 {
        Seq::empty()
    } else {
        let rest = broadcast_targets_spec(sessions.drop_last(), ids);
        let chosen = match ids {
            None => true,
            Some(list) => list@.contains(sessions.last().id),
        };
        if chosen {
            rest.push(sessions.last().id)
        } else {
            rest
        }
    }
}

/// One freshly bound listen address: it joins the bound set and the context
/// snapshot is refreshed; nothing else moves.
pub open spec fn rel_listen(pre: Service, post: Service, address: Multiaddr) -> bool {
    &&& post.listens@ == pre.listens@.push(address)
    &&& addrs_views(post.service_context.listens@) == addrs_views(post.listens@)
    &&& post.sessions == pre.sessions
    &&& post.session_senders == pre.session_senders
    &&& post.dials == pre.dials
    &&& post.task_count == pre.task_count
    &&& post.handshakes_outbound == pre.handshakes_outbound
    &&& post.next_session == pre.next_session
    &&& post.shutdown == pre.shutdown
    &&& post.session_service_protos == pre.session_service_protos
    &&& post.service_proto_handles == pre.service_proto_handles
    &&& post.session_proto_handles == pre.session_proto_handles
    &&& Service::same_config(pre, post)
    &&& Service::same_io(pre, post)
    &&& post.service_context.control == pre.service_context.control
    &&& post.service_context.proto_infos == pre.service_context.proto_infos
    &&& post.service_context.notify_keys == pre.service_context.notify_keys
}

/// One resolved outbound connect: the pending entry leaves and the socket
/// goes to the handshake stage; an unknown address changes nothing.
pub open spec fn rel_dial_ready(
    pre: Service,
    post: Service,
    address: Multiaddr,
    acts: Seq<Action>,
    accepted: bool,
) -> bool {
    if !has_addr(pre.dials@, address@) {
        &&& post == pre
        &&& acts.len() == 0
        &&& !accepted
    } else {
        exists|k: int|
            {
                &&& 0 <= k < pre.dials@.len()
                &&& (#[trigger] pre.dials@[k])@ == address@
                &&& if pre.has_key_pair {
                    &&& acts.len() == 1
                    &&& acts[0] == Action::StartHandshake { ty: SessionType::Outbound, address }
                    &&& !accepted
                    &&& post.handshakes_outbound == pre.handshakes_outbound + 1
                    &&& post.task_count == pre.task_count
                    &&& post.dials@ == pre.dials@.remove(k)
                    &&& post.sessions == pre.sessions
                    &&& post.session_senders == pre.session_senders
                    &&& post.next_session == pre.next_session
                    &&& post.listens == pre.listens
                    &&& post.shutdown == pre.shutdown
                    &&& post.session_service_protos == pre.session_service_protos
                    &&& post.service_proto_handles == pre.service_proto_handles
                    &&& post.session_proto_handles == pre.session_proto_handles
                    &&& Service::same_config(pre, post)
                    &&& Service::same_io(pre, post)
                    &&& post.service_context == pre.service_context
                } else {
                    &&& rel_session_open(pre, post, None, address, SessionType::Outbound, acts,
                    accepted)
                    &&& accepted
                    &&& post.task_count == pre.task_count - 1
                    &&& post.handshakes_outbound == pre.handshakes_outbound
                    &&& post.dials@ == pre.dials@.remove(k)
                }
            }
    }
}

/// One failed outbound connect: the pending entry leaves, its task resolves,
/// and the dialer error is delivered; an unknown address changes nothing.
pub open spec fn rel_dial_error(
    pre: Service,
    post: Service,
    address: Multiaddr,
    error: ErrorKind,
    acts: Seq<Action>,
) -> bool {
    if !has_addr(pre.dials@, address@) {
        &&& post == pre
        &&& acts.len() == 0
    } else {
        &&& exists|k: int|
            {
                &&& 0 <= k < pre.dials@.len()
                &&& (#[trigger] pre.dials@[k])@ == address@
                &&& post.dials@ == pre.dials@.remove(k)
            }
        &&& post.task_count == pre.task_count - 1
        &&& acts.len() == 1
        &&& acts[0] == Action::HandleError(ServiceError::DialerError { address, error })
        &&& post.sessions == pre.sessions
        &&& post.session_senders == pre.session_senders
        &&& post.handshakes_outbound == pre.handshakes_outbound
        &&& post.next_session == pre.next_session
        &&& post.listens == pre.listens
        &&& post.shutdown == pre.shutdown
        &&& post.session_service_protos == pre.session_service_protos
        &&& post.service_proto_handles == pre.service_proto_handles
        &&& post.session_proto_handles == pre.session_proto_handles
        &&& Service::same_config(pre, post)
        &&& Service::same_io(pre, post)
        &&& post.service_context == pre.service_context
    }
}

/// One failed listener: its address leaves the bound set (when known), the
/// listen error is delivered, and the context snapshot is refreshed.
pub open spec fn rel_listen_error(
    pre: Service,
    post: Service,
    address: Multiaddr,
    error: ErrorKind,
    acts: Seq<Action>,
) -> bool {
    &&& if !has_addr(pre.listens@, address@) {
        post.listens == pre.listens
    } else {
        exists|k: int|
            {
                &&& 0 <= k < pre.listens@.len()
                &&& (#[trigger] pre.listens@[k])@ == address@
                &&& post.listens@ == pre.listens@.remove(k)
            }
    }
    &&& acts.len() == 1
    &&& acts[0] == Action::HandleError(ServiceError::ListenError { address, error })
    &&& addrs_views(post.service_context.listens@) == addrs_views(post.listens@)
    &&& post.sessions == pre.sessions
    &&& post.session_senders == pre.session_senders
    &&& post.dials == pre.dials
    &&& post.task_count == pre.task_count
    &&& post.handshakes_outbound == pre.handshakes_outbound
    &&& post.next_session == pre.next_session
    &&& post.shutdown == pre.shutdown
    &&& post.session_service_protos == pre.session_service_protos
    &&& post.service_proto_handles == pre.service_proto_handles
    &&& post.session_proto_handles == pre.session_proto_handles
    &&& Service::same_config(pre, post)
    &&& Service::same_io(pre, post)
    &&& post.service_context.control == pre.service_context.control
    &&& post.service_context.proto_infos == pre.service_context.proto_infos
    &&& post.service_context.notify_keys == pre.service_context.notify_keys
}

// ---------------------------------------------------------------------------
// Session close and the protocol lifecycle.
// ---------------------------------------------------------------------------

/// Whether a pair survives the removal that `pairs_without` makes.
pub open spec fn keeps_without(p: (u64, u64), id: SessionId, by_session: bool, pid: ProtocolId) -> bool {
    if by_session {
        p.0 != id
    } else {
        p != (id, pid)
    }
}

/// The pair table after a removal: of a whole session (`by_session`), or of
/// one (session, protocol) binding.  Order kept.
pub open spec fn pairs_removed(
    pairs: Seq<(u64, u64)>,
    id: SessionId,
    by_session: bool,
    pid: ProtocolId,
) -> Seq<(u64, u64)>
    decreases pairs.len(),
{
    if pairs.len() == 0 {
        Seq::empty()
    } else {
        let rest = pairs_removed(pairs.drop_last(), id, by_session, pid);
        if keeps_without(pairs.last(), id, by_session, pid) {
            rest.push(pairs.last())
        } else {
            rest
        }
    }
}

/// The pair table after a whole session leaves.
pub open spec fn pairs_without(pairs: Seq<(u64, u64)>, id: SessionId) -> Seq<(u64, u64)> {
    pairs_removed(pairs, id, true, 0)
}

/// The pair table after one (session, protocol) binding leaves.
pub open spec fn pair_removed(pairs: Seq<(u64, u64)>, sid: SessionId, pid: ProtocolId) -> Seq<
    (u64, u64),
> {
    pairs_removed(pairs, sid, false, pid)
}

/// What `pairs_removed` keeps: a subsequence of the table, every survivor
/// kept rightly, nothing kept lost, uniqueness preserved.
pub proof fn lemma_pairs_removed(
    pairs: Seq<(u64, u64)>,
    id: SessionId,
    by_session: bool,
    pid: ProtocolId,
)
    ensures
        pairs_removed(pairs, id, by_session, pid).len() <= pairs.len(),
        forall|i: int|
            0 <= i < pairs_removed(pairs, id, by_session, pid).len() ==> pairs.contains(
                #[trigger] pairs_removed(pairs, id, by_session, pid)[i],
            ) && keeps_without(pairs_removed(pairs, id, by_session, pid)[i], id, by_session, pid),
        forall|p: (u64, u64)|
            #[trigger] pairs.contains(p) && keeps_without(p, id, by_session, pid) ==> pairs_removed(
                pairs,
                id,
                by_session,
                pid,
            ).contains(p),
        (forall|i: int, j: int| 0 <= i < j < pairs.len() ==> pairs[i] != pairs[j]) ==> (forall|
            i: int,
            j: int,
        |
            0 <= i < j < pairs_removed(pairs, id, by_session, pid).len() ==> pairs_removed(
                pairs,
                id,
                by_session,
                pid,
            )[i] != pairs_removed(pairs, id, by_session, pid)[j]),
    decreases pairs.len(),
{
    if pairs.len() > 0 {
        lemma_pairs_removed(pairs.drop_last(), id, by_session, pid);
        let rest = pairs_removed(pairs.drop_last(), id, by_session, pid);
        let out = pairs_removed(pairs, id, by_session, pid);
        let kept_last = keeps_without(pairs.last(), id, by_session, pid);
        assert forall|p: (u64, u64)| pairs.drop_last().contains(p) implies pairs.contains(p) by {
            let j = choose|j: int| 0 <= j < pairs.drop_last().len() && pairs.drop_last()[j] == p;
            assert(pairs[j] == p);
        }
        assert forall|i: int|
            0 <= i < out.len() implies pairs.contains(#[trigger] out[i]) && keeps_without(
            out[i],
            id,
            by_session,
            pid,
        ) by {
            if kept_last {
                if i < out.len() - 1 {
                    assert(out[i] == rest[i]);
                } else {
                    assert(out[i] == pairs.last());
                    assert(pairs[pairs.len() - 1] == pairs.last());
                }
            } else {
                assert(out[i] == rest[i]);
            }
        }
        assert forall|p: (u64, u64)|
            #[trigger] pairs.contains(p) && keeps_without(p, id, by_session, pid) implies out
            .contains(p) by {
            let j = choose|j: int| 0 <= j < pairs.len() && pairs[j] == p;
            if j == pairs.len() - 1 {
                assert(out.last() == p);
            } else {
                assert(pairs.drop_last()[j] == p);
                assert(pairs.drop_last().contains(p));
                assert(rest.contains(p));
                let k = choose|k: int| 0 <= k < rest.len() && rest[k] == p;
                assert(out[k] == p);
            }
        }
        if forall|i: int, j: int| 0 <= i < j < pairs.len() ==> pairs[i] != pairs[j] {
            assert forall|i: int, j: int|
                0 <= i < j < pairs.drop_last().len() implies pairs.drop_last()[i]
                != pairs.drop_last()[j] by {
                assert(pairs[i] == pairs.drop_last()[i]);
                assert(pairs[j] == pairs.drop_last()[j]);
            }
            if kept_last {
                assert forall|k: int| 0 <= k < rest.len() implies rest[k] != pairs.last() by {
                    assert(pairs.drop_last().contains(rest[k]));
                    let m = choose|m: int|
                        0 <= m < pairs.drop_last().len() && pairs.drop_last()[m] == rest[k];
                    assert(pairs[m] == rest[k]);
                    assert(pairs[m] != pairs[pairs.len() - 1]);
                    assert(pairs.last() == pairs[pairs.len() - 1]);
                }
            }
        }
    }
}

/// The `disconnected` callbacks owed to the session-tier handlers of a
/// closing session, in table order.
pub open spec fn sess_disc_acts(pairs: Seq<(u64, u64)>, id: SessionId) -> Seq<Action>
    decreases pairs.len(),
{
    if pairs.len() == 0 {
        Seq::empty()
    } else {
        let rest = sess_disc_acts(pairs.drop_last(), id);
        if pairs.last().0 == id {
            rest.push(Action::SessionDisconnected { session_id: id, proto_id: pairs.last().1 })
        } else {
            rest
        }
    }
}

/// The service-tier cleanup owed for the recorded protocols of a closing
/// session, in table order: drop the notify senders, and call `disconnected`
/// where the service-level handler exists.
pub open spec fn svc_close_acts(
    pairs: Seq<(u64, u64)>,
    id: SessionId,
    handles: Seq<ProtocolId>,
) -> Seq<Action>
    decreases pairs.len(),
{
    if pairs.len() == 0 {
        Seq::empty()
    } else {
        let rest = svc_close_acts(pairs.drop_last(), id, handles);
        if pairs.last().0 == id {
            let with_notify = rest.push(
                Action::RemoveNotify { session_id: id, proto_id: pairs.last().1 },
            );
            if handles.contains(pairs.last().1) {
                with_notify.push(
                    Action::ServiceDisconnected { proto_id: pairs.last().1, session_id: id },
                )
            } else {
                with_notify
            }
        } else {
            rest
        }
    }
}

/// The notify-sender table after a closing session's recorded protocols are
/// dropped one after the other.
pub open spec fn keys_after_close(
    keys: Seq<(u64, u64)>,
    pairs: Seq<(u64, u64)>,
    id: SessionId,
) -> Seq<(u64, u64)>
    decreases pairs.len(),
{
    if pairs.len() == 0 {
        keys
    } else {
        let rest = keys_after_close(keys, pairs.drop_last(), id);
        if pairs.last().0 == id {
            keys_without(rest, id, pairs.last().1)
        } else {
            rest
        }
    }
}

/// One session close.  An unknown id is a no-op: no error, no callback.  A
/// live one is signalled to shut down, `SessionClose` is delivered, every
/// session-tier handler of the session is disconnected and dropped, every
/// recorded service-tier protocol loses its notify senders and (when its
/// handler exists) hears `disconnected`, and the context leaves last.
pub open spec fn rel_session_close(
    pre: Service,
    post: Service,
    id: SessionId,
    acts: Seq<Action>,
) -> bool {
    if !pre.live_id(id) {
        &&& post == pre
        &&& acts.len() == 0
    } else {
        &&& exists|idx: int|
            {
                &&& 0 <= idx < pre.sessions@.len()
                &&& (#[trigger] pre.sessions@[idx]).id == id
                &&& post.sessions@ == pre.sessions@.remove(idx)
            }
        &&& post.session_senders@.len() == pre.session_senders@.len() - 1
        &&& post.session_proto_handles@ == pairs_without(pre.session_proto_handles@, id)
        &&& post.session_service_protos@ == pairs_without(pre.session_service_protos@, id)
        &&& acts == seq![Action::HandleEvent(ServiceEvent::SessionClose { id })]
            + sess_disc_acts(pre.session_proto_handles@, id) + svc_close_acts(
            pre.session_service_protos@,
            id,
            pre.service_proto_handles@,
        )
        &&& post.service_context.notify_keys@ == keys_after_close(
            pre.service_context.notify_keys@,
            pre.session_service_protos@,
            id,
        )
        &&& post.service_context.control == pre.service_context.control
        &&& post.service_context.listens == pre.service_context.listens
        &&& post.service_context.proto_infos == pre.service_context.proto_infos
        &&& post.dials == pre.dials
        &&& post.listens == pre.listens
        &&& post.task_count == pre.task_count
        &&& post.handshakes_outbound == pre.handshakes_outbound
        &&& post.next_session == pre.next_session
        &&& post.shutdown == pre.shutdown
        &&& post.service_proto_handles == pre.service_proto_handles
        &&& Service::same_config(pre, post)
        &&& Service::same_io(pre, post)
    }
}

impl Service {
    /// Close one session and clean up everything bound to it; an unknown id
    /// is a no-op.  The context leaves the registry before the returned
    /// callbacks are performed, so an embedding whose `disconnected`
    /// callbacks read the session's address, key or direction keeps those
    /// from the `SessionOpen` event it was handed at open.
    pub fn session_close(&mut self, id: SessionId) -> (r: Vec<Action>)
        requires
            old(self).wf(),
        ensures
            final(self).wf(),
            rel_session_close(*old(self), *final(self), id, r@),
    {
        let idx = match self.session_index(id) {
            Some(i) => i,
            None => {
                return Vec::new();
            },
        };
        // Signal the session task to shut down, best effort.
        let _ = sender_try_send(&mut self.session_senders[idx], SessionEvent::SessionClose { id });
        let mut acts: Vec<Action> = Vec::new();
        acts.push(Action::HandleEvent(ServiceEvent::SessionClose { id }));

        // Session-tier handlers: disconnect and drop each one of this session.
        let mut kept_sess: Vec<(u64, u64)> = Vec::new();
        let n1 = self.session_proto_handles.len();
        let mut i: usize = 0;
        while i < n1
            invariant
                i <= n1,
                n1 == self.session_proto_handles@.len(),
                kept_sess@ == pairs_without(
                    self.session_proto_handles@.subrange(0, i as int),
                    id,
                ),
                acts@ == seq![Action::HandleEvent(ServiceEvent::SessionClose { id })]
                    + sess_disc_acts(self.session_proto_handles@.subrange(0, i as int), id),
            decreases n1 - i,
        {
            let p = self.session_proto_handles[i];
            proof {
                assert(self.session_proto_handles@.subrange(0, i + 1).drop_last()
                    == self.session_proto_handles@.subrange(0, i as int));
                assert(self.session_proto_handles@.subrange(0, i + 1).last() == p);
            }
            if p.0 == id {
                acts.push(Action::SessionDisconnected { session_id: id, proto_id: p.1 });
            } else {
                kept_sess.push(p);
            }
            i += 1;
        }
        proof {
            assert(self.session_proto_handles@.subrange(0, n1 as int)
                == self.session_proto_handles@);
        }

        // Service tier: for each recorded protocol of this session, drop its
        // notify senders and call `disconnected` when the handler exists.
        let ghost mid = *self;
        let mut kept_svc: Vec<(u64, u64)> = Vec::new();
        let n2 = self.session_service_protos.len();
        let mut i2: usize = 0;
        while i2 < n2
            invariant
                i2 <= n2,
                n2 == self.session_service_protos@.len(),
                self.session_service_protos == mid.session_service_protos,
                self.session_proto_handles == mid.session_proto_handles,
                self.service_proto_handles == mid.service_proto_handles,
                self.sessions == mid.sessions,
                self.session_senders == mid.session_senders,
                self.dials == mid.dials,
                self.listens == mid.listens,
                self.task_count == mid.task_count,
                self.handshakes_outbound == mid.handshakes_outbound,
                self.next_session == mid.next_session,
                self.shutdown == mid.shutdown,
                Service::same_config(mid, *self),
                Service::same_io(mid, *self),
                self.service_context.control == mid.service_context.control,
                self.service_context.listens == mid.service_context.listens,
                self.service_context.proto_infos == mid.service_context.proto_infos,
                self.service_context.notify_keys@ == keys_after_close(
                    mid.service_context.notify_keys@,
                    mid.session_service_protos@.subrange(0, i2 as int),
                    id,
                ),
                kept_svc@ == pairs_without(
                    mid.session_service_protos@.subrange(0, i2 as int),
                    id,
                ),
                acts@ == seq![Action::HandleEvent(ServiceEvent::SessionClose { id })]
                    + sess_disc_acts(mid.session_proto_handles@, id) + svc_close_acts(
                    mid.session_service_protos@.subrange(0, i2 as int),
                    id,
                    mid.service_proto_handles@,
                ),
            decreases n2 - i2,
        {
            let p = self.session_service_protos[i2];
            proof {
                assert(mid.session_service_protos@.subrange(0, i2 + 1).drop_last()
                    == mid.session_service_protos@.subrange(0, i2 as int));
                assert(mid.session_service_protos@.subrange(0, i2 + 1).last() == p);
            }
            if p.0 == id {
                self.service_context.remove_session_notify_senders(id, p.1);
                acts.push(Action::RemoveNotify { session_id: id, proto_id: p.1 });
                if contains_u64(&self.service_proto_handles, p.1) {
                    acts.push(Action::ServiceDisconnected { proto_id: p.1, session_id: id });
                }
            } else {
                kept_svc.push(p);
            }
            i2 += 1;
        }
        proof {
            assert(mid.session_service_protos@.subrange(0, n2 as int)
                == mid.session_service_protos@);
        }

        // Remove the context last, so callback bodies may still read it.
        self.session_proto_handles = kept_sess;
        self.session_service_protos = kept_svc;
        self.sessions.remove(idx);
        self.session_senders.remove(idx);

        proof {
            let pre = *old(self);
            pre.sessions@.remove_ensures(idx as int);
            lemma_pairs_removed(pre.session_proto_handles@, id, true, 0);
            lemma_pairs_removed(pre.session_service_protos@, id, true, 0);
            assert forall|x: SessionId| x != id && pre.live_id(x) implies self.live_id(x) by {
                let j = choose|j: int|
                    0 <= j < pre.sessions@.len() && (#[trigger] pre.sessions@[j]).id == x;
                if j < idx {
                    assert(self.sessions@[j] == pre.sessions@[j]);
                } else {
                    assert(j != idx);
                    assert(self.sessions@[j - 1] == pre.sessions@[j]);
                }
            }
            assert forall|i: int, j: int|
                0 <= i < j < self.sessions@.len() implies (#[trigger] self.sessions@[i]).id != (
            #[trigger] self.sessions@[j]).id by {
                let pi = if i < idx { i } else { i + 1 };
                let pj = if j < idx { j } else { j + 1 };
                assert(self.sessions@[i] == pre.sessions@[pi]);
                assert(self.sessions@[j] == pre.sessions@[pj]);
            }
            assert forall|i: int, j: int|
                0 <= i < j < self.sessions@.len() && (#[trigger] self.sessions@[i]).remote_pubkey
                    is Some && (#[trigger] self.sessions@[j]).remote_pubkey is Some implies ctx_key(
                self.sessions@[i],
            ) != ctx_key(self.sessions@[j]) by {
                let pi = if i < idx { i } else { i + 1 };
                let pj = if j < idx { j } else { j + 1 };
                assert(self.sessions@[i] == pre.sessions@[pi]);
                assert(self.sessions@[j] == pre.sessions@[pj]);
            }
            assert forall|i: int| 0 <= i < self.sessions@.len() implies 1 <= (
            #[trigger] self.sessions@[i]).id <= self.next_session by {
                let pi = if i < idx { i } else { i + 1 };
                assert(self.sessions@[i] == pre.sessions@[pi]);
            }
            assert forall|i: int|
                0 <= i < self.session_proto_handles@.len() implies self.live_id(
                (#[trigger] self.session_proto_handles@[i]).0,
            ) by {
                let p = self.session_proto_handles@[i];
                assert(pre.session_proto_handles@.contains(p) && p.0 != id);
                let k = choose|k: int|
                    0 <= k < pre.session_proto_handles@.len() && pre.session_proto_handles@[k]
                        == p;
                assert(pre.live_id(p.0));
            }
            assert forall|i: int|
                0 <= i < self.session_service_protos@.len() implies self.live_id(
                (#[trigger] self.session_service_protos@[i]).0,
            ) by {
                let p = self.session_service_protos@[i];
                assert(pre.session_service_protos@.contains(p) && p.0 != id);
                let k = choose|k: int|
                    0 <= k < pre.session_service_protos@.len() && pre.session_service_protos@[k]
                        == p;
                assert(pre.live_id(p.0));
            }
        }
        acts
    }
}

/// One protocol sub-stream opened on a live session.  Service tier: the
/// handler is created (and `init` called) on first use, then hears
/// `connected` and the binding is recorded.  Session tier: a fresh handler is
/// created for the pair, independent of the service tier; an already bound
/// pair is left alone.  An unknown session id changes nothing.
pub open spec fn rel_protocol_open(
    pre: Service,
    post: Service,
    id: SessionId,
    proto_id: ProtocolId,
    version: String,
    acts: Seq<Action>,
) -> bool {
    if !pre.live_id(id) {
        &&& post == pre
        &&& acts.len() == 0
    } else {
        let created = !pre.service_proto_handles@.contains(proto_id) && has_handle_spec(
            pre.protocol_configs@,
            false,
            proto_id,
        );
        let has_svc = pre.service_proto_handles@.contains(proto_id) || created;
        let svc_pair_new = has_svc && !pre.session_service_protos@.contains((id, proto_id));
        let sess_new = !pre.session_proto_handles@.contains((id, proto_id)) && has_handle_spec(
            pre.protocol_configs@,
            true,
            proto_id,
        );
        let ci = if created {
            1int
        } else {
            0
        };
        let hi = if has_svc {
            1int
        } else {
            0
        };
        &&& post.service_proto_handles@ == if created {
            pre.service_proto_handles@.push(proto_id)
        } else {
            pre.service_proto_handles@
        }
        &&& post.session_service_protos@ == if svc_pair_new {
            pre.session_service_protos@.push((id, proto_id))
        } else {
            pre.session_service_protos@
        }
        &&& post.session_proto_handles@ == if sess_new {
            pre.session_proto_handles@.push((id, proto_id))
        } else {
            pre.session_proto_handles@
        }
        &&& acts.len() == ci + hi + (if sess_new {
            1int
        } else {
            0
        })
        &&& created ==> acts[0] == Action::ServiceInit { proto_id }
        &&& has_svc ==> {
            &&& acts[ci] is ServiceConnected
            &&& acts[ci]->ServiceConnected_proto_id == proto_id
            &&& acts[ci]->ServiceConnected_session_id == id
            &&& acts[ci]->ServiceConnected_version@ == version@
        }
        &&& sess_new ==> {
            &&& acts[ci + hi] is SessionConnected
            &&& acts[ci + hi]->SessionConnected_session_id == id
            &&& acts[ci + hi]->SessionConnected_proto_id == proto_id
            &&& acts[ci + hi]->SessionConnected_version@ == version@
        }
        &&& post.sessions == pre.sessions
        &&& post.session_senders == pre.session_senders
        &&& post.dials == pre.dials
        &&& post.listens == pre.listens
        &&& post.task_count == pre.task_count
        &&& post.handshakes_outbound == pre.handshakes_outbound
        &&& post.next_session == pre.next_session
        &&& post.shutdown == pre.shutdown
        &&& Service::same_config(pre, post)
        &&& Service::same_io(pre, post)
        &&& post.service_context == pre.service_context
    }
}

/// One payload arriving for a protocol on a session: the service-tier handler
/// (if it exists and the session is live) hears it first, then the
/// session-tier handler of the pair.  Nothing else moves.
pub open spec fn rel_protocol_message(
    pre: Service,
    post: Service,
    id: SessionId,
    proto_id: ProtocolId,
    data: Vec<u8>,
    acts: Seq<Action>,
) -> bool {
    let svc = pre.live_id(id) && pre.service_proto_handles@.contains(proto_id);
    let sess = pre.session_proto_handles@.contains((id, proto_id));
    &&& post == pre
    &&& acts.len() == (if svc {
        1int
    } else {
        0
    }) + (if sess {
        1int
    } else {
        0
    })
    &&& svc ==> {
        &&& acts[0] is ServiceReceived
        &&& acts[0]->ServiceReceived_proto_id == proto_id
        &&& acts[0]->ServiceReceived_session_id == id
        &&& acts[0]->ServiceReceived_data@ == data@
    }
    &&& sess ==> {
        let k = if svc {
            1int
        } else {
            0
        };
        &&& acts[k] is SessionReceived
        &&& acts[k]->SessionReceived_session_id == id
        &&& acts[k]->SessionReceived_proto_id == proto_id
        &&& acts[k]->SessionReceived_data@ == data@
    }
}

/// One protocol sub-stream closed: the service-tier handler (if any, on a
/// live session) hears `disconnected`, the session-tier handler of the pair
/// is disconnected and dropped, the service-tier binding is unrecorded, and
/// the pair's notify senders go.
pub open spec fn rel_protocol_close(
    pre: Service,
    post: Service,
    id: SessionId,
    proto_id: ProtocolId,
    acts: Seq<Action>,
) -> bool {
    let svc = pre.live_id(id) && pre.service_proto_handles@.contains(proto_id);
    let sess = pre.session_proto_handles@.contains((id, proto_id));
    let si = if svc {
        1int
    } else {
        0
    };
    &&& post.session_proto_handles@ == pair_removed(pre.session_proto_handles@, id, proto_id)
    &&& post.session_service_protos@ == pair_removed(pre.session_service_protos@, id, proto_id)
    &&& post.service_context.notify_keys@ == keys_without(
        pre.service_context.notify_keys@,
        id,
        proto_id,
    )
    &&& acts.len() == si + (if sess {
        1int
    } else {
        0
    }) + 1
    &&& svc ==> acts[0] == Action::ServiceDisconnected { proto_id, session_id: id }
    &&& sess ==> acts[si] == Action::SessionDisconnected { session_id: id, proto_id }
    &&& acts.last() == Action::RemoveNotify { session_id: id, proto_id }
    &&& post.service_context.control == pre.service_context.control
    &&& post.service_context.listens == pre.service_context.listens
    &&& post.service_context.proto_infos == pre.service_context.proto_infos
    &&& post.sessions == pre.sessions
    &&& post.session_senders == pre.session_senders
    &&& post.dials == pre.dials
    &&& post.listens == pre.listens
    &&& post.task_count == pre.task_count
    &&& post.handshakes_outbound == pre.handshakes_outbound
    &&& post.next_session == pre.next_session
    &&& post.shutdown == pre.shutdown
    &&& post.service_proto_handles == pre.service_proto_handles
    &&& Service::same_config(pre, post)
    &&& Service::same_io(pre, post)
}

impl Service {
    /// A protocol sub-stream opened on a session; an unknown session id
    /// changes nothing.
    pub fn protocol_open(&mut self, id: SessionId, proto_id: ProtocolId, version: String) -> (r:
        Vec<Action>)
        requires
            old(self).wf(),
        ensures
            final(self).wf(),
            rel_protocol_open(*old(self), *final(self), id, proto_id, version, r@),
    {
        if self.session_index(id).is_none() {
            return Vec::new();
        }
        let mut acts: Vec<Action> = Vec::new();

        // Service tier: lazy creation, then `connected`, and record the
        // binding.
        let pre_contains = contains_u64(&self.service_proto_handles, proto_id);
        let created = !pre_contains && self.proto_handle(false, proto_id);
        if created {
            acts.push(Action::ServiceInit { proto_id });
            self.service_proto_handles.push(proto_id);
        }
        if pre_contains || created {
            acts.push(
                Action::ServiceConnected { proto_id, session_id: id, version: version.clone() },
            );
            if !pair_in(&self.session_service_protos, id, proto_id) {
                self.session_service_protos.push((id, proto_id));
            }
        }

        // Session tier: a fresh handler for the pair, unless one is bound.
        if !pair_in(&self.session_proto_handles, id, proto_id) && self.proto_handle(
            true,
            proto_id,
        ) {
            acts.push(Action::SessionConnected { session_id: id, proto_id, version });
            self.session_proto_handles.push((id, proto_id));
        }
        acts
    }

    /// A payload arrived for a protocol on a session.
    pub fn protocol_message(&mut self, id: SessionId, proto_id: ProtocolId, data: Vec<u8>) -> (r:
        Vec<Action>)
        requires
            old(self).wf(),
        ensures
            final(self).wf(),
            rel_protocol_message(*old(self), *final(self), id, proto_id, data, r@),
    {
        let mut acts: Vec<Action> = Vec::new();
        let svc = self.session_index(id).is_some() && contains_u64(
            &self.service_proto_handles,
            proto_id,
        );
        let sess = pair_in(&self.session_proto_handles, id, proto_id);
        if svc && sess {
            acts.push(
                Action::ServiceReceived { proto_id, session_id: id, data: clone_bytes(&data) },
            );
            acts.push(Action::SessionReceived { session_id: id, proto_id, data });
        } else if svc {
            acts.push(Action::ServiceReceived { proto_id, session_id: id, data });
        } else if sess {
            acts.push(Action::SessionReceived { session_id: id, proto_id, data });
        }
        acts
    }

    /// A protocol sub-stream closed on a session.
    pub fn protocol_close(&mut self, id: SessionId, proto_id: ProtocolId) -> (r: Vec<Action>)
        requires
            old(self).wf(),
        ensures
            final(self).wf(),
            rel_protocol_close(*old(self), *final(self), id, proto_id, r@),
    {
        let mut acts: Vec<Action> = Vec::new();
        if self.session_index(id).is_some() && contains_u64(&self.service_proto_handles, proto_id)
        {
            acts.push(Action::ServiceDisconnected { proto_id, session_id: id });
        }
        if pair_in(&self.session_proto_handles, id, proto_id) {
            acts.push(Action::SessionDisconnected { session_id: id, proto_id });
        }
        self.retain_pair_removed(id, proto_id);
        self.service_context.remove_session_notify_senders(id, proto_id);
        acts.push(Action::RemoveNotify { session_id: id, proto_id });
        acts
    }

    /// Drop the (session, protocol) binding from both pair tables.
    fn retain_pair_removed(&mut self, id: SessionId, proto_id: ProtocolId)
        requires
            old(self).wf(),
        ensures
            final(self).wf(),
            final(self).session_proto_handles@ == pair_removed(
                old(self).session_proto_handles@,
                id,
                proto_id,
            ),
            final(self).session_service_protos@ == pair_removed(
                old(self).session_service_protos@,
                id,
                proto_id,
            ),
            final(self).sessions == old(self).sessions,
            final(self).session_senders == old(self).session_senders,
            final(self).dials == old(self).dials,
            final(self).listens == old(self).listens,
            final(self).task_count == old(self).task_count,
            final(self).handshakes_outbound == old(self).handshakes_outbound,
            final(self).next_session == old(self).next_session,
            final(self).shutdown == old(self).shutdown,
            final(self).service_proto_handles == old(self).service_proto_handles,
            Service::same_config(*old(self), *final(self)),
            Service::same_io(*old(self), *final(self)),
            final(self).service_context == old(self).service_context,
    {
        let mut kept1: Vec<(u64, u64)> = Vec::new();
        let n1 = self.session_proto_handles.len();
        let mut i: usize = 0;
        while i < n1
            invariant
                i <= n1,
                n1 == self.session_proto_handles@.len(),
                kept1@ == pair_removed(
                    self.session_proto_handles@.subrange(0, i as int),
                    id,
                    proto_id,
                ),
            decreases n1 - i,
        {
            let p = self.session_proto_handles[i];
            proof {
                assert(self.session_proto_handles@.subrange(0, i + 1).drop_last()
                    == self.session_proto_handles@.subrange(0, i as int));
                assert(self.session_proto_handles@.subrange(0, i + 1).last() == p);
            }
            if !(p.0 == id && p.1 == proto_id) {
                kept1.push(p);
            }
            i += 1;
        }
        let mut kept2: Vec<(u64, u64)> = Vec::new();
        let n2 = self.session_service_protos.len();
        let mut i2: usize = 0;
        while i2 < n2
            invariant
                i2 <= n2,
                n2 == self.session_service_protos@.len(),
                kept2@ == pair_removed(
                    self.session_service_protos@.subrange(0, i2 as int),
                    id,
                    proto_id,
                ),
            decreases n2 - i2,
        {
            let p = self.session_service_protos[i2];
            proof {
                assert(self.session_service_protos@.subrange(0, i2 + 1).drop_last()
                    == self.session_service_protos@.subrange(0, i2 as int));
                assert(self.session_service_protos@.subrange(0, i2 + 1).last() == p);
            }
            if !(p.0 == id && p.1 == proto_id) {
                kept2.push(p);
            }
            i2 += 1;
        }
        proof {
            assert(self.session_proto_handles@.subrange(0, n1 as int)
                == self.session_proto_handles@);
            assert(self.session_service_protos@.subrange(0, n2 as int)
                == self.session_service_protos@);
            let pre = *old(self);
            lemma_pairs_removed(pre.session_proto_handles@, id, false, proto_id);
            lemma_pairs_removed(pre.session_service_protos@, id, false, proto_id);
            assert forall|k: int| 0 <= k < kept1@.len() implies pre.live_id(
                (#[trigger] kept1@[k]).0,
            ) by {
                let p = kept1@[k];
                assert(pre.session_proto_handles@.contains(p));
                let m = choose|m: int|
                    0 <= m < pre.session_proto_handles@.len() && pre.session_proto_handles@[m]
                        == p;
                assert(pre.live_id(p.0));
            }
            assert forall|k: int| 0 <= k < kept2@.len() implies pre.live_id(
                (#[trigger] kept2@[k]).0,
            ) by {
                let p = kept2@[k];
                assert(pre.session_service_protos@.contains(p));
                let m = choose|m: int|
                    0 <= m < pre.session_service_protos@.len() && pre.session_service_protos@[m]
                        == p;
                assert(pre.live_id(p.0));
            }
        }
        self.session_proto_handles = kept1;
        self.session_service_protos = kept2;
    }
}

// ---------------------------------------------------------------------------
// The two dispatchers and the tick.
// ---------------------------------------------------------------------------

/// One event from the session-event inbox, dispatched.  A handshake outcome
/// for which no outbound handshake is in flight, or a success that would
/// exhaust the id space, is ignored (the embedding never produces either).
pub open spec fn rel_session_event(
    pre: Service,
    post: Service,
    ev: SessionEvent,
    acts: Seq<Action>,
    accepted: bool,
) -> bool {
    match ev {
        SessionEvent::SessionClose { id } => {
            &&& rel_session_close(pre, post, id, acts)
            &&& !accepted
        },
        SessionEvent::HandshakeSuccess { public_key, address, ty } => {
            if (ty is Outbound && pre.handshakes_outbound == 0) || pre.next_session
                == u64::MAX {
                &&& post == pre
                &&& acts.len() == 0
                &&& !accepted
            } else {
                &&& rel_session_open(pre, post, Some(public_key), address, ty, acts, accepted)
                &&& post.task_count == pre.task_count - (if ty is Outbound {
                    1int
                } else {
                    0
                })
                &&& post.handshakes_outbound == pre.handshakes_outbound - (if ty is Outbound {
                    1int
                } else {
                    0
                })
                &&& post.dials == pre.dials
            }
        },
        SessionEvent::HandshakeFail { ty, error, address } => {
            if ty is Outbound && pre.handshakes_outbound > 0 {
                &&& post.task_count == pre.task_count - 1
                &&& post.handshakes_outbound == pre.handshakes_outbound - 1
                &&& acts == seq![
                    Action::HandleError(ServiceError::DialerError { address, error }),
                ]
                &&& !accepted
                &&& post.sessions == pre.sessions
                &&& post.session_senders == pre.session_senders
                &&& post.dials == pre.dials
                &&& post.listens == pre.listens
                &&& post.next_session == pre.next_session
                &&& post.shutdown == pre.shutdown
                &&& post.session_service_protos == pre.session_service_protos
                &&& post.service_proto_handles == pre.service_proto_handles
                &&& post.session_proto_handles == pre.session_proto_handles
                &&& Service::same_config(pre, post)
                &&& Service::same_io(pre, post)
                &&& post.service_context == pre.service_context
            } else {
                &&& post == pre
                &&& acts.len() == 0
                &&& !accepted
            }
        },
        SessionEvent::ProtocolMessage { id, proto_id, data } => {
            &&& rel_protocol_message(pre, post, id, proto_id, data, acts)
            &&& !accepted
        },
        SessionEvent::ProtocolOpen { id, proto_id, version } => {
            &&& rel_protocol_open(pre, post, id, proto_id, version, acts)
            &&& !accepted
        },
        SessionEvent::ProtocolClose { id, proto_id } => {
            &&& rel_protocol_close(pre, post, id, proto_id, acts)
            &&& !accepted
        },
    }
}

/// One task from the external inbox, dispatched exactly as submitted.
pub open spec fn rel_service_task(
    pre: Service,
    post: Service,
    task: ServiceTask,
    acts: Seq<Action>,
) -> bool {
    match task {
        ServiceTask::ProtocolMessage { session_ids, proto_id, data } => {
            &&& Service::unchanged_core(pre, post)
            &&& Service::same_io(pre, post)
            &&& post.service_context == pre.service_context
            &&& post.session_senders@.len() == pre.session_senders@.len()
            &&& acts.len() == 0
        },
        ServiceTask::Dial { address } => {
            if has_addr(pre.dials@, address@) || pre.task_count == usize::MAX {
                &&& post == pre
                &&& acts.len() == 0
            } else {
                rel_dial_enqueue(pre, post, address, acts)
            }
        },
        ServiceTask::Disconnect { session_id } => rel_session_close(pre, post, session_id, acts),
        ServiceTask::FutureTask => {
            &&& post == pre
            &&& acts == seq![Action::SpawnFuture]
        },
        ServiceTask::ProtocolNotify { proto_id, token } => {
            &&& post == pre
            &&& if pre.service_proto_handles@.contains(proto_id) {
                acts == seq![Action::ServiceNotify { proto_id, token }]
            } else {
                acts.len() == 0
            }
        },
        ServiceTask::ProtocolSessionNotify { session_id, proto_id, token } => {
            if pre.session_proto_handles@.contains((session_id, proto_id)) {
                &&& post == pre
                &&& acts == seq![Action::SessionNotify { session_id, proto_id, token }]
            } else {
                &&& acts == seq![Action::RemoveNotify { session_id, proto_id }]
                &&& post.service_context.notify_keys@ == keys_without(
                    pre.service_context.notify_keys@,
                    session_id,
                    proto_id,
                )
                &&& post.service_context.control == pre.service_context.control
                &&& post.service_context.listens == pre.service_context.listens
                &&& post.service_context.proto_infos == pre.service_context.proto_infos
                &&& Service::unchanged_core(pre, post)
                &&& Service::same_io(pre, post)
                &&& post.session_senders == pre.session_senders
            }
        },
    }
}

/// How many inbox messages one tick consumes from each inbox at most, so
/// that every tick makes bounded progress and the sockets are polled again.
pub const TICK_BUDGET: usize = 4096;

impl Service {
    /// Dispatch one event uploaded by a session or handshake task.
    pub fn handle_session_event(&mut self, event: SessionEvent) -> (r: (
        Vec<Action>,
        Option<(SessionId, futures::channel::mpsc::Receiver<SessionEvent>)>,
    ))
        requires
            old(self).wf(),
        ensures
            final(self).wf(),
            final(self).next_session >= old(self).next_session,
            Service::same_config(*old(self), *final(self)),
            Service::same_io(*old(self), *final(self)),
            final(self).shutdown == old(self).shutdown,
            rel_session_event(*old(self), *final(self), event, r.0@, r.1 is Some),
            r.1 matches Some(p) ==> p.0 == final(self).next_session,
    {
        match event {
            SessionEvent::SessionClose { id } => (self.session_close(id), None),
            SessionEvent::HandshakeSuccess { public_key, address, ty } => {
                if (ty == SessionType::Outbound && self.handshakes_outbound == 0)
                    || self.next_session == u64::MAX {
                    (Vec::new(), None)
                } else {
                    let r = self.session_open(Some(public_key), address, ty);
                    if ty == SessionType::Outbound {
                        self.handshakes_outbound -= 1;
                        self.task_count -= 1;
                    }
                    r
                }
            },
            SessionEvent::HandshakeFail { ty, error, address } => {
                if ty == SessionType::Outbound && self.handshakes_outbound > 0 {
                    self.handshakes_outbound -= 1;
                    self.task_count -= 1;
                    let mut acts: Vec<Action> = Vec::new();
                    acts.push(Action::HandleError(ServiceError::DialerError { address, error }));
                    (acts, None)
                } else {
                    (Vec::new(), None)
                }
            },
            SessionEvent::ProtocolMessage { id, proto_id, data } => (
                self.protocol_message(id, proto_id, data),
                None,
            ),
            SessionEvent::ProtocolOpen { id, proto_id, version } => (
                self.protocol_open(id, proto_id, version),
                None,
            ),
            SessionEvent::ProtocolClose { id, proto_id } => (
                self.protocol_close(id, proto_id),
                None,
            ),
        }
    }

    /// Dispatch one task submitted from outside through a control handle.
    pub fn handle_service_task(&mut self, task: ServiceTask) -> (r: Vec<Action>)
        requires
            old(self).wf(),
        ensures
            final(self).wf(),
            final(self).next_session >= old(self).next_session,
            Service::same_config(*old(self), *final(self)),
            Service::same_io(*old(self), *final(self)),
            final(self).shutdown == old(self).shutdown,
            rel_service_task(*old(self), *final(self), task, r@),
    {
        match task {
            ServiceTask::ProtocolMessage { session_ids, proto_id, data } => {
                let _ = self.filter_broadcast(session_ids, proto_id, &data);
                Vec::new()
            },
            ServiceTask::Dial { address } => {
                if !contains_addr(&self.dials, &address) && self.task_count < usize::MAX {
                    let mut acts: Vec<Action> = Vec::new();
                    let act = self.dial_inner(address);
                    acts.push(act);
                    acts
                } else {
                    Vec::new()
                }
            },
            ServiceTask::Disconnect { session_id } => self.session_close(session_id),
            ServiceTask::FutureTask => {
                let mut acts: Vec<Action> = Vec::new();
                acts.push(Action::SpawnFuture);
                acts
            },
            ServiceTask::ProtocolNotify { proto_id, token } => {
                let mut acts: Vec<Action> = Vec::new();
                if contains_u64(&self.service_proto_handles, proto_id) {
                    acts.push(Action::ServiceNotify { proto_id, token });
                }
                acts
            },
            ServiceTask::ProtocolSessionNotify { session_id, proto_id, token } => {
                let mut acts: Vec<Action> = Vec::new();
                if pair_in(&self.session_proto_handles, session_id, proto_id) {
                    acts.push(Action::SessionNotify { session_id, proto_id, token });
                } else {
                    self.service_context.remove_session_notify_senders(session_id, proto_id);
                    acts.push(Action::RemoveNotify { session_id, proto_id });
                }
                acts
            },
        }
    }

    /// One wake of the reactor.  When the termination predicate already
    /// holds, it reports completion at once; otherwise both inboxes are
    /// drained (each event dispatched as it arrives) up to a fixed budget per
    /// inbox, so that every tick makes bounded progress; an inbox reporting
    /// closed flags shutdown, and the predicate is checked again.  The
    /// embedding polls its sockets (through `dial_ready`, `dial_error`,
    /// `accept_ready`, `listen_error`) before each tick, performs the
    /// returned actions after it, and hands each returned receiver to the
    /// session task it spawns.
    pub fn tick(&mut self) -> (r: (
        bool,
        Vec<Action>,
        Vec<(SessionId, futures::channel::mpsc::Receiver<SessionEvent>)>,
    ))
        requires
            old(self).wf(),
        ensures
            final(self).wf(),
            final(self).next_session >= old(self).next_session,
            Service::same_config(*old(self), *final(self)),
            r.0 == (final(self).shutdown || final(self).terminate_predicate()),
            (old(self).shutdown || old(self).terminate_predicate()) ==> (r.0 && *final(self)
                == *old(self) && r.1@.len() == 0 && r.2@.len() == 0),
    {
        if self.shutdown {
            return (true, Vec::new(), Vec::new());
        }
        if self.listens.len() == 0 && self.task_count == 0 && self.sessions.len() == 0 {
            return (true, Vec::new(), Vec::new());
        }
        let mut acts: Vec<Action> = Vec::new();
        let mut rxs: Vec<(SessionId, futures::channel::mpsc::Receiver<SessionEvent>)> =
            Vec::new();
        let mut budget: usize = TICK_BUDGET;
        while budget > 0
            invariant
                self.wf(),
                self.next_session >= old(self).next_session,
                Service::same_config(*old(self), *self),
            decreases budget,
        {
            budget -= 1;
            match receiver_try_recv(&mut self.session_event_receiver) {
                Polled::Item(ev) => {
                    let (mut a, rx) = self.handle_session_event(ev);
                    acts.append(&mut a);
                    match rx {
                        Some(p) => rxs.push(p),
                        None => {},
                    }
                },
                Polled::Empty => {
                    break ;
                },
                Polled::Closed => {
                    self.shutdown = true;
                    break ;
                },
            }
        }
        if !self.shutdown {
            let mut budget2: usize = TICK_BUDGET;
            while budget2 > 0
                invariant
                    self.wf(),
                    self.next_session >= old(self).next_session,
                    Service::same_config(*old(self), *self),
                decreases budget2,
            {
                budget2 -= 1;
                match receiver_try_recv(&mut self.service_task_receiver) {
                    Polled::Item(task) => {
                        let mut a = self.handle_service_task(task);
                        acts.append(&mut a);
                    },
                    Polled::Empty => {
                        break ;
                    },
                    Polled::Closed => {
                        self.shutdown = true;
                        break ;
                    },
                }
            }
        }
        let done = self.shutdown || (self.listens.len() == 0 && self.task_count == 0
            && self.sessions.len() == 0);
        (done, acts, rxs)
    }
}

/// Fresh copies of a list of addresses, same views.
pub fn clone_addrs(v: &Vec<Multiaddr>) -> (r: Vec<Multiaddr>)
    ensures
        addrs_views(r@) == addrs_views(v@),
{
    let mut r: Vec<Multiaddr> = Vec::new();
    let n = v.len();
    let mut i: usize = 0;
    while i < n
        invariant
            i <= n,
            n == v@.len(),
            r@.len() == i,
            forall|j: int| 0 <= j < i ==> (#[trigger] r@[j])@ == v@[j]@,
        decreases n - i,
    {
        r.push(clone_addr(&v[i]));
        i += 1;
    }
    proof {
        assert(addrs_views(r@) =~= addrs_views(v@));
    }
    r
}

/// The published descriptions of the configured protocols.
fn build_proto_infos(configs: &Vec<ProtoConfig>) -> (r: Vec<ProtocolInfo>)
    ensures
        infos_match(configs@, r@),
{
    let mut r: Vec<ProtocolInfo> = Vec::new();
    let n = configs.len();
    let mut i: usize = 0;
    while i < n
        invariant
            i <= n,
            n == configs@.len(),
            r@.len() == i,
            forall|k: int|
                0 <= k < i ==> {
                    &&& (#[trigger] r@[k]).id == configs@[k].id
                    &&& r@[k].name@ == configs@[k].name@
                    &&& r@[k].versions@.len() == configs@[k].versions@.len()
                    &&& forall|j: int|
                        0 <= j < configs@[k].versions@.len() ==> (#[trigger] r@[k].versions@[j])@
                            == configs@[k].versions@[j]@
                },
        decreases n - i,
    {
        let c = &configs[i];
        let info = ProtocolInfo {
            id: c.id,
            name: c.name.clone(),
            versions: clone_strings(&c.versions),
        };
        r.push(info);
        i += 1;
    }
    r
}

/// Fresh copies of a list of strings, same views.
fn clone_strings(v: &Vec<String>) -> (r: Vec<String>)
    ensures
        r@.len() == v@.len(),
        forall|j: int| 0 <= j < v@.len() ==> (#[trigger] r@[j])@ == v@[j]@,
{
    let mut r: Vec<String> = Vec::new();
    let n = v.len();
    let mut i: usize = 0;
    while i < n
        invariant
            i <= n,
            n == v@.len(),
            r@.len() == i,
            forall|j: int| 0 <= j < i ==> (#[trigger] r@[j])@ == v@[j]@,
        decreases n - i,
    {
        r.push(v[i].clone());
        i += 1;
    }
    r
}

} // verus!
