//! The mutable context handed to every handler callback: the control sink for
//! submitting tasks, a snapshot of the bound listen addresses, the read-only
//! protocol descriptions, and the table of registered notify senders.

use vstd::prelude::*;

use crate::channel::sender_clone;
use crate::channel::sender_try_send;
use crate::types::Multiaddr;
use crate::types::ProtocolId;
use crate::types::ProtocolInfo;
use crate::types::ServiceTask;
use crate::types::SessionId;

verus! {

/// A clonable handle that submits `ServiceTask`s to the running service.
pub struct ServiceControl {
    /// Transmission end of the service's external task inbox.
    pub sender: futures::channel::mpsc::Sender<ServiceTask>,
}

impl ServiceControl {
    /// Submit one task, best effort: a full or closed inbox loses it and the
    /// call reports failure.
    pub fn send_task(&mut self, task: ServiceTask) -> bool {
        sender_try_send(&mut self.sender, task)
    }

    /// Another handle to the same inbox.
    pub fn clone_control(&self) -> ServiceControl {
        ServiceControl { sender: sender_clone(&self.sender) }
    }
}

/// The keys of `notify_keys` after removing every entry for one session and
/// protocol, order kept.
pub open spec fn keys_without(
    keys: Seq<(SessionId, ProtocolId)>,
    session_id: SessionId,
    proto_id: ProtocolId,
) -> Seq<(SessionId, ProtocolId)>
    decreases keys.len(),
{
    if keys.len() == 0 {
        Seq::empty()
    } else {
        let rest = keys_without(keys.drop_last(), session_id, proto_id);
        if keys.last().0 == session_id && keys.last().1 == proto_id {
            rest
        } else {
            rest.push(keys.last())
        }
    }
}

/// Shared mutable context passed by reference to every handler callback.
pub struct ServiceContext {
    /// Control sink; handlers clone it to schedule work.
    pub control: ServiceControl,
    /// Snapshot of the currently bound listen addresses.
    pub listens: Vec<Multiaddr>,
    /// Read-only description of every configured protocol.
    pub proto_infos: Vec<ProtocolInfo>,
    /// Which (session, protocol) pairs currently hold a notify-timer sender.
    pub notify_keys: Vec<(SessionId, ProtocolId)>,
}

impl ServiceContext {
    /// A fresh context with no listens and no notify senders.
    pub fn new(control: ServiceControl, proto_infos: Vec<ProtocolInfo>) -> (r: ServiceContext)
        ensures
            r.listens@ =~= Seq::<Multiaddr>::empty(),
            r.notify_keys@ =~= Seq::<(SessionId, ProtocolId)>::empty(),
            r.proto_infos == proto_infos,
    {
        ServiceContext { control, listens: Vec::new(), proto_infos, notify_keys: Vec::new() }
    }

    /// The control sink, for user code to schedule tasks.
    pub fn control(&mut self) -> (r: &mut ServiceControl)
        ensures
            *r == old(self).control,
            final(self).control == *final(r),
            final(self).listens == old(self).listens,
            final(self).proto_infos == old(self).proto_infos,
            final(self).notify_keys == old(self).notify_keys,
    {
        &mut self.control
    }

    /// The current snapshot of bound listen addresses.
    pub fn listens(&self) -> (r: &Vec<Multiaddr>)
        ensures
            r == self.listens,
    {
        &self.listens
    }

    /// Replace the listen-address snapshot.
    pub fn update_listens(&mut self, addresses: Vec<Multiaddr>)
        ensures
            final(self).listens == addresses,
            final(self).control == old(self).control,
            final(self).proto_infos == old(self).proto_infos,
            final(self).notify_keys == old(self).notify_keys,
    {
        self.listens = addresses;
    }

    /// Record that a notify sender exists for this session and protocol
    /// (replacing any earlier one for the same pair).
    pub fn register_session_notify_sender(&mut self, session_id: SessionId, proto_id: ProtocolId)
        ensures
            final(self).notify_keys@ == keys_without(old(self).notify_keys@, session_id, proto_id)
                .push((session_id, proto_id)),
            final(self).control == old(self).control,
            final(self).listens == old(self).listens,
            final(self).proto_infos == old(self).proto_infos,
    {
        self.remove_session_notify_senders(session_id, proto_id);
        self.notify_keys.push((session_id, proto_id));
    }

    /// Drop every notify sender registered for this session and protocol.
    pub fn remove_session_notify_senders(&mut self, session_id: SessionId, proto_id: ProtocolId)
        ensures
            final(self).notify_keys@ == keys_without(old(self).notify_keys@, session_id, proto_id),
            final(self).control == old(self).control,
            final(self).listens == old(self).listens,
            final(self).proto_infos == old(self).proto_infos,
    {
        let mut kept: Vec<(SessionId, ProtocolId)> = Vec::new();
        let n = self.notify_keys.len();
        let mut i: usize = 0;
        while i < n
            invariant
                i <= n,
                n == self.notify_keys@.len(),
                self.notify_keys == old(self).notify_keys,
                self.control == old(self).control,
                self.listens == old(self).listens,
                self.proto_infos == old(self).proto_infos,
                kept@ == keys_without(self.notify_keys@.subrange(0, i as int), session_id, proto_id),
            decreases n - i,
        {
            let k = self.notify_keys[i];
            proof {
                assert(self.notify_keys@.subrange(0, i + 1).drop_last()
                    == self.notify_keys@.subrange(0, i as int));
                assert(self.notify_keys@.subrange(0, i + 1).last() == k);
            }
            if !(k.0 == session_id && k.1 == proto_id) {
                kept.push(k);
            }
            i += 1;
        }
        proof {
            assert(self.notify_keys@.subrange(0, n as int) == self.notify_keys@);
        }
        self.notify_keys = kept;
    }
}

} // verus!
