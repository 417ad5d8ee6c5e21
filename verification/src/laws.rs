//! The laws of the reactor, proved from the operation relations of
//! [`crate::service`]: what the service promises its embedding about session
//! lifecycles, identity collisions, id allocation, dial dedup, dispatch, and
//! termination.

use vstd::prelude::*;

use crate::service::err_is_live_repeat;
use crate::service::has_addr;
use crate::service::has_handle_spec;
use crate::service::keeps_without;
use crate::service::lemma_pairs_removed;
use crate::service::rel_dial_enqueue;
use crate::service::rel_dial_error;
use crate::service::rel_dial_ready;
use crate::service::rel_handshake;
use crate::service::rel_listen;
use crate::service::rel_listen_error;
use crate::service::rel_protocol_close;
use crate::service::rel_protocol_open;
use crate::service::rel_session_close;
use crate::service::addrs_views;
use crate::service::has_key;
use crate::service::open_rejected;
use crate::service::rejected_error_matches;
use crate::service::rel_service_task;
use crate::service::rel_session_event;
use crate::service::rel_session_open;
use crate::service::sess_disc_acts;
use crate::service::svc_close_acts;
use crate::service::Service;
use crate::types::Action;
use crate::types::ErrorKind;
use crate::types::Multiaddr;
use crate::types::ProtocolId;
use crate::types::PublicKey;
use crate::types::ServiceError;
use crate::types::ServiceEvent;
use crate::types::ServiceTask;
use crate::types::SessionEvent;
use crate::types::SessionId;
use crate::types::SessionType;

verus! {

// ---------------------------------------------------------------------------
// Counting actions of one kind in an action sequence.
// ---------------------------------------------------------------------------

/// One countable kind of delivered callback.
pub enum ActionKey {
    /// `SessionOpen` delivered to the service handle, for this id.
    OpenEvent(SessionId),
    /// `SessionClose` delivered to the service handle, for this id.
    CloseEvent(SessionId),
    /// `connected` on the session-tier handler of this pair.
    SessConnected(SessionId, ProtocolId),
    /// `disconnected` on the session-tier handler of this pair.
    SessDisconnected(SessionId, ProtocolId),
}

/// Whether one action is of the counted kind.
pub open spec fn act_matches(a: Action, k: ActionKey) -> bool {
    match k {
        ActionKey::OpenEvent(id) => a matches Action::HandleEvent(
            ServiceEvent::SessionOpen { id: i, .. },
        ) && i == id,
        ActionKey::CloseEvent(id) => a matches Action::HandleEvent(
            ServiceEvent::SessionClose { id: i },
        ) && i == id,
        ActionKey::SessConnected(sid, pid) => a matches Action::SessionConnected {
            session_id,
            proto_id,
            ..
        } && session_id == sid && proto_id == pid,
        ActionKey::SessDisconnected(sid, pid) => a matches Action::SessionDisconnected {
            session_id,
            proto_id,
        } && session_id == sid && proto_id == pid,
    }
}

/// How many actions of this kind the sequence holds.
pub open spec fn count_acts(acts: Seq<Action>, k: ActionKey) -> int
    decreases acts.len(),
{
    if acts.len() == 0 {
        0
    } else {
        count_acts(acts.drop_last(), k) + (if act_matches(acts.last(), k) {
            1int
        } else {
            0
        })
    }
}

/// Counting distributes over concatenation.
pub proof fn lemma_count_acts_add(a: Seq<Action>, b: Seq<Action>, k: ActionKey)
    ensures
        count_acts(a + b, k) == count_acts(a, k) + count_acts(b, k),
    decreases b.len(),
{
    if b.len() == 0 {
        assert(a + b =~= a);
    } else {
        lemma_count_acts_add(a, b.drop_last(), k);
        assert((a + b).drop_last() =~= a + b.drop_last());
        assert((a + b).last() == b.last());
    }
}

/// A sequence with no matching action counts zero.
pub proof fn lemma_count_acts_zero(acts: Seq<Action>, k: ActionKey)
    requires
        forall|i: int| 0 <= i < acts.len() ==> !act_matches(#[trigger] acts[i], k),
    ensures
        count_acts(acts, k) == 0,
    decreases acts.len(),
{
    if acts.len() > 0 {
        assert forall|i: int|
            0 <= i < acts.drop_last().len() implies !act_matches(
            #[trigger] acts.drop_last()[i],
            k,
        ) by {
            assert(acts.drop_last()[i] == acts[i]);
        }
        lemma_count_acts_zero(acts.drop_last(), k);
        assert(acts.last() == acts[acts.len() - 1]);
    }
}

/// Counting over a one-action sequence.
pub proof fn lemma_count_one(a: Action, k: ActionKey)
    ensures
        count_acts(seq![a], k) == (if act_matches(a, k) {
            1int
        } else {
            0
        }),
{
    assert(seq![a].drop_last() =~= Seq::<Action>::empty());
    assert(count_acts(Seq::<Action>::empty(), k) == 0);
    assert(seq![a].last() == a);
}

/// Every action of `sess_disc_acts` is a session-tier `disconnected` of the
/// closing session.
pub proof fn lemma_sess_disc_acts_kinds(pairs: Seq<(u64, u64)>, id: SessionId)
    ensures
        forall|i: int|
            0 <= i < sess_disc_acts(pairs, id).len() ==> (#[trigger] sess_disc_acts(pairs, id)[i])
                is SessionDisconnected && sess_disc_acts(pairs, id)[i]
                ->SessionDisconnected_session_id == id,
    decreases pairs.len(),
{
    if pairs.len() > 0 {
        lemma_sess_disc_acts_kinds(pairs.drop_last(), id);
        let rest = sess_disc_acts(pairs.drop_last(), id);
        let out = sess_disc_acts(pairs, id);
        assert forall|i: int| 0 <= i < out.len() implies (#[trigger] out[i])
            is SessionDisconnected && out[i]->SessionDisconnected_session_id == id by {
            if pairs.last().0 == id {
                if i < out.len() - 1 {
                    assert(out[i] == rest[i]);
                }
            } else {
                assert(out[i] == rest[i]);
            }
        }
    }
}

/// Every action of `svc_close_acts` is a notify removal or a service-tier
/// `disconnected`.
pub proof fn lemma_svc_close_acts_kinds(pairs: Seq<(u64, u64)>, id: SessionId, handles: Seq<u64>)
    ensures
        forall|i: int|
            0 <= i < svc_close_acts(pairs, id, handles).len() ==> ((#[trigger] svc_close_acts(
                pairs,
                id,
                handles,
            )[i]) is RemoveNotify || svc_close_acts(pairs, id, handles)[i]
                is ServiceDisconnected),
    decreases pairs.len(),
{
    if pairs.len() > 0 {
        lemma_svc_close_acts_kinds(pairs.drop_last(), id, handles);
        let rest = svc_close_acts(pairs.drop_last(), id, handles);
        let out = svc_close_acts(pairs, id, handles);
        assert forall|i: int| 0 <= i < out.len() implies ((#[trigger] out[i]) is RemoveNotify
            || out[i] is ServiceDisconnected) by {
            if pairs.last().0 == id {
                let with_notify = rest.push(
                    Action::RemoveNotify { session_id: id, proto_id: pairs.last().1 },
                );
                if handles.contains(pairs.last().1) {
                    if i < out.len() - 1 {
                        assert(out[i] == with_notify[i]);
                        if i < with_notify.len() - 1 {
                            assert(with_notify[i] == rest[i]);
                        }
                    }
                } else {
                    if i < out.len() - 1 {
                        assert(out[i] == rest[i]);
                    }
                }
            } else {
                assert(out[i] == rest[i]);
            }
        }
    }
}

/// In a table without repeated pairs, the session-tier `disconnected`s of a
/// close name each bound pair of the session exactly once.
pub proof fn lemma_sess_disc_count(pairs: Seq<(u64, u64)>, id: SessionId, pid: ProtocolId)
    requires
        forall|i: int, j: int| 0 <= i < j < pairs.len() ==> pairs[i] != pairs[j],
    ensures
        count_acts(sess_disc_acts(pairs, id), ActionKey::SessDisconnected(id, pid)) == (
        if pairs.contains((id, pid)) {
            1int
        } else {
            0
        }),
    decreases pairs.len(),
{
    let k = ActionKey::SessDisconnected(id, pid);
    if pairs.len() == 0 {
        assert(!pairs.contains((id, pid)));
    } else {
        assert forall|i: int, j: int|
            0 <= i < j < pairs.drop_last().len() implies pairs.drop_last()[i]
            != pairs.drop_last()[j] by {
            assert(pairs[i] == pairs.drop_last()[i]);
            assert(pairs[j] == pairs.drop_last()[j]);
        }
        lemma_sess_disc_count(pairs.drop_last(), id, pid);
        let rest = sess_disc_acts(pairs.drop_last(), id);
        let out = sess_disc_acts(pairs, id);
        let last = pairs.last();
        // relate contains on pairs to contains on the prefix
        if pairs.contains((id, pid)) {
            let w = choose|w: int| 0 <= w < pairs.len() && pairs[w] == (id, pid);
            if w < pairs.len() - 1 {
                assert(pairs.drop_last()[w] == (id, pid));
                assert(pairs.drop_last().contains((id, pid)));
            }
        }
        if pairs.drop_last().contains((id, pid)) {
            let w = choose|w: int|
                0 <= w < pairs.drop_last().len() && pairs.drop_last()[w] == (id, pid);
            assert(pairs[w] == (id, pid));
            assert(pairs.contains((id, pid)));
        }
        if last.0 == id {
            let pushed = Action::SessionDisconnected { session_id: id, proto_id: last.1 };
            assert(out == rest.push(pushed));
            assert(out.drop_last() =~= rest);
            assert(out.last() == pushed);
            if last == (id, pid) {
                // the last pair occurs nowhere earlier
                assert(pairs[pairs.len() - 1] == (id, pid));
                if pairs.drop_last().contains((id, pid)) {
                    let w = choose|w: int|
                        0 <= w < pairs.drop_last().len() && pairs.drop_last()[w] == (id, pid);
                    assert(pairs[w] == pairs[pairs.len() - 1]);
                    assert(false);
                }
                assert(act_matches(pushed, k));
                assert(pairs.contains((id, pid)));
            } else {
                assert(!act_matches(pushed, k));
            }
        } else {
            assert(out == rest);
            assert(last != (id, pid));
        }
    }
}

/// A sequence with exactly one matching action counts one.
pub proof fn lemma_count_single_match(acts: Seq<Action>, k: ActionKey, m: int)
    requires
        0 <= m < acts.len(),
        act_matches(acts[m], k),
        forall|i: int| 0 <= i < acts.len() && i != m ==> !act_matches(#[trigger] acts[i], k),
    ensures
        count_acts(acts, k) == 1,
    decreases acts.len(),
{
    if m == acts.len() - 1 {
        assert forall|i: int|
            0 <= i < acts.drop_last().len() implies !act_matches(
            #[trigger] acts.drop_last()[i],
            k,
        ) by {
            assert(acts.drop_last()[i] == acts[i]);
        }
        lemma_count_acts_zero(acts.drop_last(), k);
        assert(acts.last() == acts[m]);
    } else {
        assert forall|i: int|
            0 <= i < acts.drop_last().len() && i != m implies !act_matches(
            #[trigger] acts.drop_last()[i],
            k,
        ) by {
            assert(acts.drop_last()[i] == acts[i]);
        }
        assert(acts.drop_last()[m] == acts[m]);
        lemma_count_single_match(acts.drop_last(), k, m);
        assert(acts.last() == acts[acts.len() - 1]);
        assert(!act_matches(acts.last(), k));
    }
}

// ---------------------------------------------------------------------------
// Session lifecycle: one open event, one close event, per session id.
// ---------------------------------------------------------------------------

/// An accepted open delivers exactly one `SessionOpen`, for the fresh id, and
/// no `SessionOpen` or `SessionClose` for any other id.  Together with the
/// freshness and no-reuse laws, every session id sees exactly one
/// `SessionOpen` over a whole run.
pub proof fn lemma_session_open_event_unique(
    pre: Service,
    post: Service,
    key: Option<PublicKey>,
    address: Multiaddr,
    ty: SessionType,
    acts: Seq<Action>,
    id2: SessionId,
)
    requires
        pre.wf(),
        rel_session_open(pre, post, key, address, ty, acts, true),
    ensures
        count_acts(acts, ActionKey::OpenEvent(post.next_session)) == 1,
        id2 != post.next_session ==> count_acts(acts, ActionKey::OpenEvent(id2)) == 0,
        count_acts(acts, ActionKey::CloseEvent(id2)) == 0,
{
    let fresh = post.next_session;
    assert(act_matches(acts[1], ActionKey::OpenEvent(fresh)));
    assert(!act_matches(acts[0], ActionKey::OpenEvent(fresh)));
    lemma_count_single_match(acts, ActionKey::OpenEvent(fresh), 1);
    if id2 != fresh {
        assert forall|i: int| 0 <= i < acts.len() implies !act_matches(
            #[trigger] acts[i],
            ActionKey::OpenEvent(id2),
        ) by {}
        lemma_count_acts_zero(acts, ActionKey::OpenEvent(id2));
    }
    assert forall|i: int| 0 <= i < acts.len() implies !act_matches(
        #[trigger] acts[i],
        ActionKey::CloseEvent(id2),
    ) by {}
    lemma_count_acts_zero(acts, ActionKey::CloseEvent(id2));
}

/// Closing a live session delivers exactly one `SessionClose` for its id and
/// none for any other; afterwards the id is no longer live, so a repeated
/// close (like a close of an id never opened) delivers nothing at all.
pub proof fn lemma_session_close_event_unique(
    pre: Service,
    post: Service,
    id: SessionId,
    acts: Seq<Action>,
    id2: SessionId,
)
    requires
        pre.wf(),
        rel_session_close(pre, post, id, acts),
    ensures
        pre.live_id(id) ==> count_acts(acts, ActionKey::CloseEvent(id)) == 1,
        pre.live_id(id) ==> !post.live_id(id),
        !pre.live_id(id) ==> acts.len() == 0,
        id2 != id ==> count_acts(acts, ActionKey::CloseEvent(id2)) == 0,
        count_acts(acts, ActionKey::OpenEvent(id2)) == 0,
{
    if pre.live_id(id) {
        let head = seq![Action::HandleEvent(ServiceEvent::SessionClose { id })];
        let disc = sess_disc_acts(pre.session_proto_handles@, id);
        let svc = svc_close_acts(pre.session_service_protos@, id, pre.service_proto_handles@);
        lemma_sess_disc_acts_kinds(pre.session_proto_handles@, id);
        lemma_svc_close_acts_kinds(pre.session_service_protos@, id, pre.service_proto_handles@);
        // the head holds the one close event; the tails hold none
        lemma_count_one(Action::HandleEvent(ServiceEvent::SessionClose { id }), ActionKey::CloseEvent(id));
        assert(count_acts(head, ActionKey::CloseEvent(id)) == 1);
        lemma_count_acts_zero(disc, ActionKey::CloseEvent(id));
        lemma_count_acts_zero(svc, ActionKey::CloseEvent(id));
        lemma_count_acts_add(head, disc, ActionKey::CloseEvent(id));
        lemma_count_acts_add(head + disc, svc, ActionKey::CloseEvent(id));
        if id2 != id {
            lemma_count_one(Action::HandleEvent(ServiceEvent::SessionClose { id }), ActionKey::CloseEvent(id2));
            assert(count_acts(head, ActionKey::CloseEvent(id2)) == 0);
            lemma_count_acts_zero(disc, ActionKey::CloseEvent(id2));
            lemma_count_acts_zero(svc, ActionKey::CloseEvent(id2));
            lemma_count_acts_add(head, disc, ActionKey::CloseEvent(id2));
            lemma_count_acts_add(head + disc, svc, ActionKey::CloseEvent(id2));
        }
        lemma_count_one(Action::HandleEvent(ServiceEvent::SessionClose { id }), ActionKey::OpenEvent(id2));
        assert(count_acts(head, ActionKey::OpenEvent(id2)) == 0);
        lemma_count_acts_zero(disc, ActionKey::OpenEvent(id2));
        lemma_count_acts_zero(svc, ActionKey::OpenEvent(id2));
        lemma_count_acts_add(head, disc, ActionKey::OpenEvent(id2));
        lemma_count_acts_add(head + disc, svc, ActionKey::OpenEvent(id2));
        // the id is gone afterwards
        let idx = choose|idx: int|
            0 <= idx < pre.sessions@.len() && (#[trigger] pre.sessions@[idx]).id == id
                && post.sessions@ == pre.sessions@.remove(idx);
        pre.sessions@.remove_ensures(idx);
        assert forall|j: int| 0 <= j < post.sessions@.len() implies (
        #[trigger] post.sessions@[j]).id != id by {
            let pj = if j < idx {
                j
            } else {
                j + 1
            };
            assert(post.sessions@[j] == pre.sessions@[pj]);
            assert(pre.sessions@[pj].id != pre.sessions@[idx].id);
        }
    } else {
        assert(count_acts(acts, ActionKey::CloseEvent(id2)) == 0);
        assert(count_acts(acts, ActionKey::OpenEvent(id2)) == 0);
    }
}

// ---------------------------------------------------------------------------
// Session-tier handler lifecycle: one connected, one disconnected, per pair.
// ---------------------------------------------------------------------------

/// A protocol open connects a session-tier handler exactly once: once when no
/// handler is bound for the pair and the factory yields one, never when one
/// is already bound, never when the factory yields none.  A connected pair is
/// bound afterwards, so it hears `connected` again only after a disconnect.
pub proof fn lemma_session_handler_connected_once(
    pre: Service,
    post: Service,
    id: SessionId,
    pid: ProtocolId,
    version: String,
    acts: Seq<Action>,
)
    requires
        pre.wf(),
        rel_protocol_open(pre, post, id, pid, version, acts),
        pre.live_id(id),
    ensures
        pre.session_proto_handles@.contains((id, pid)) ==> count_acts(
            acts,
            ActionKey::SessConnected(id, pid),
        ) == 0,
        !has_handle_spec(pre.protocol_configs@, true, pid) ==> count_acts(
            acts,
            ActionKey::SessConnected(id, pid),
        ) == 0,
        (!pre.session_proto_handles@.contains((id, pid)) && has_handle_spec(
            pre.protocol_configs@,
            true,
            pid,
        )) ==> count_acts(acts, ActionKey::SessConnected(id, pid)) == 1,
        (pre.session_proto_handles@.contains((id, pid)) || has_handle_spec(
            pre.protocol_configs@,
            true,
            pid,
        )) ==> post.session_proto_handles@.contains((id, pid)),
{
    let k = ActionKey::SessConnected(id, pid);
    let created = !pre.service_proto_handles@.contains(pid) && has_handle_spec(
        pre.protocol_configs@,
        false,
        pid,
    );
    let has_svc = pre.service_proto_handles@.contains(pid) || created;
    let sess_new = !pre.session_proto_handles@.contains((id, pid)) && has_handle_spec(
        pre.protocol_configs@,
        true,
        pid,
    );
    let ci: int = if created {
        1
    } else {
        0
    };
    let hi: int = if has_svc {
        1
    } else {
        0
    };
    if sess_new {
        assert(act_matches(acts[ci + hi], k));
        assert forall|i: int| 0 <= i < acts.len() && i != ci + hi implies !act_matches(
            #[trigger] acts[i],
            k,
        ) by {
            if created && i == 0 {
                assert(acts[i] == Action::ServiceInit { proto_id: pid });
            } else {
                assert(has_svc && i == ci);
                assert(acts[i] is ServiceConnected);
            }
        }
        lemma_count_single_match(acts, k, ci + hi);
        assert(post.session_proto_handles@ == pre.session_proto_handles@.push((id, pid)));
        assert(post.session_proto_handles@.last() == (id, pid));
        assert(post.session_proto_handles@.contains((id, pid)));
    } else {
        assert forall|i: int| 0 <= i < acts.len() implies !act_matches(#[trigger] acts[i], k) by {
            if created && i == 0 {
                assert(acts[i] == Action::ServiceInit { proto_id: pid });
            } else {
                assert(has_svc && i == ci);
                assert(acts[i] is ServiceConnected);
            }
        }
        lemma_count_acts_zero(acts, k);
        if pre.session_proto_handles@.contains((id, pid)) {
            assert(post.session_proto_handles@ == pre.session_proto_handles@);
        }
    }
}

/// Closing a session disconnects the session-tier handler of each pair bound
/// to it exactly once, and unbinds every such pair.
pub proof fn lemma_session_close_disconnects_each_handler_once(
    pre: Service,
    post: Service,
    id: SessionId,
    acts: Seq<Action>,
    pid: ProtocolId,
)
    requires
        pre.wf(),
        rel_session_close(pre, post, id, acts),
        pre.live_id(id),
    ensures
        count_acts(acts, ActionKey::SessDisconnected(id, pid)) == (
        if pre.session_proto_handles@.contains((id, pid)) {
            1int
        } else {
            0
        }),
        !post.session_proto_handles@.contains((id, pid)),
{
    let k = ActionKey::SessDisconnected(id, pid);
    let head = seq![Action::HandleEvent(ServiceEvent::SessionClose { id })];
    let disc = sess_disc_acts(pre.session_proto_handles@, id);
    let svc = svc_close_acts(pre.session_service_protos@, id, pre.service_proto_handles@);
    lemma_svc_close_acts_kinds(pre.session_service_protos@, id, pre.service_proto_handles@);
    lemma_count_one(Action::HandleEvent(ServiceEvent::SessionClose { id }), k);
    assert(count_acts(head, k) == 0);
    lemma_sess_disc_count(pre.session_proto_handles@, id, pid);
    lemma_count_acts_zero(svc, k);
    lemma_count_acts_add(head, disc, k);
    lemma_count_acts_add(head + disc, svc, k);
    lemma_pairs_removed(pre.session_proto_handles@, id, true, 0);
    if post.session_proto_handles@.contains((id, pid)) {
        let w = choose|w: int|
            0 <= w < post.session_proto_handles@.len() && post.session_proto_handles@[w] == (
            id,
            pid,
            );
        assert(keeps_without(post.session_proto_handles@[w], id, true, 0));
        assert(false);
    }
}

/// Closing one protocol sub-stream disconnects the bound session-tier handler
/// of the pair exactly once, and unbinds the pair.
pub proof fn lemma_protocol_close_disconnects_once(
    pre: Service,
    post: Service,
    id: SessionId,
    pid: ProtocolId,
    acts: Seq<Action>,
)
    requires
        pre.wf(),
        rel_protocol_close(pre, post, id, pid, acts),
    ensures
        count_acts(acts, ActionKey::SessDisconnected(id, pid)) == (
        if pre.session_proto_handles@.contains((id, pid)) {
            1int
        } else {
            0
        }),
        !post.session_proto_handles@.contains((id, pid)),
{
    let k = ActionKey::SessDisconnected(id, pid);
    let svc = pre.live_id(id) && pre.service_proto_handles@.contains(pid);
    let sess = pre.session_proto_handles@.contains((id, pid));
    let si: int = if svc {
        1
    } else {
        0
    };
    if sess {
        assert(act_matches(acts[si], k));
        assert forall|i: int| 0 <= i < acts.len() && i != si implies !act_matches(
            #[trigger] acts[i],
            k,
        ) by {
            if i == acts.len() - 1 {
                assert(acts[i] == Action::RemoveNotify { session_id: id, proto_id: pid });
            } else if svc && i == 0 {
                assert(acts[i] == Action::ServiceDisconnected { proto_id: pid, session_id: id });
            }
        }
        lemma_count_single_match(acts, k, si);
    } else {
        assert forall|i: int| 0 <= i < acts.len() implies !act_matches(#[trigger] acts[i], k) by {
            if i == acts.len() - 1 {
                assert(acts[i] == Action::RemoveNotify { session_id: id, proto_id: pid });
            } else {
                assert(svc && i == 0);
                assert(acts[i] == Action::ServiceDisconnected { proto_id: pid, session_id: id });
            }
        }
        lemma_count_acts_zero(acts, k);
    }
    lemma_pairs_removed(pre.session_proto_handles@, id, false, pid);
    if post.session_proto_handles@.contains((id, pid)) {
        let w = choose|w: int|
            0 <= w < post.session_proto_handles@.len() && post.session_proto_handles@[w] == (
            id,
            pid,
            );
        assert(keeps_without(post.session_proto_handles@[w], id, false, pid));
        assert(false);
    }
}

// ---------------------------------------------------------------------------
// The reactor as one step relation, and its trace invariants.
// ---------------------------------------------------------------------------

/// Everything that can drive the reactor one step: an inbox event, an
/// external task, a socket outcome, or one of the two embedding calls.
pub enum Input {
    /// An event from the session-event inbox.
    FromSession(SessionEvent),
    /// A task from the external inbox.
    FromControl(ServiceTask),
    /// An outbound connect completed.
    DialReady(Multiaddr),
    /// An outbound connect failed.
    DialFailed(Multiaddr, ErrorKind),
    /// An inbound socket arrived.
    InboundReady(Multiaddr),
    /// A listener failed.
    ListenerFailed(Multiaddr, ErrorKind),
    /// The embedding bound a listen address.
    ListenBound(Multiaddr),
    /// The embedding called `dial`.
    DialCall(Multiaddr),
}

/// One step of the reactor: the relation each verified operation ensures,
/// selected by the input that drove it.
pub open spec fn reactor_step(
    pre: Service,
    post: Service,
    input: Input,
    acts: Seq<Action>,
    accepted: bool,
) -> bool {
    match input {
        Input::FromSession(ev) => rel_session_event(pre, post, ev, acts, accepted),
        Input::FromControl(t) => rel_service_task(pre, post, t, acts) && !accepted,
        Input::DialReady(a) => rel_dial_ready(pre, post, a, acts, accepted),
        Input::DialFailed(a, e) => rel_dial_error(pre, post, a, e, acts) && !accepted,
        Input::InboundReady(a) => rel_handshake(pre, post, SessionType::Inbound, a, acts, accepted),
        Input::ListenerFailed(a, e) => rel_listen_error(pre, post, a, e, acts) && !accepted,
        Input::ListenBound(a) => rel_listen(pre, post, a) && acts.len() == 0 && !accepted,
        Input::DialCall(a) => rel_dial_enqueue(pre, post, a, acts) && !accepted,
    }
}

/// The session-lifecycle invariant: over the trace of everything delivered so
/// far, an id has seen exactly one `SessionOpen` exactly when it has been
/// assigned (ids are assigned consecutively from one), and exactly one
/// `SessionClose` exactly when it has been assigned and is no longer live.
/// Since it holds after every step, every prefix of a run satisfies it too,
/// so the one open always precedes the one close.
pub open spec fn lifecycle_inv(s: Service, trace: Seq<Action>, id: SessionId) -> bool {
    &&& count_acts(trace, ActionKey::OpenEvent(id)) == (if 1 <= id <= s.next_session {
        1int
    } else {
        0
    })
    &&& count_acts(trace, ActionKey::CloseEvent(id)) == (
    if 1 <= id <= s.next_session && !s.live_id(id) {
        1int
    } else {
        0
    })
}

/// A fresh service with an empty trace satisfies the lifecycle invariant.
pub proof fn lemma_lifecycle_inv_init(s: Service, id: SessionId)
    requires
        s.next_session == 0,
    ensures
        lifecycle_inv(s, Seq::empty(), id),
{
}

/// A live session's id lies between one and the counter.
proof fn lemma_live_bounds(s: Service, x: SessionId)
    requires
        s.wf_registry(),
        s.live_id(x),
    ensures
        1 <= x <= s.next_session,
{
    let i = choose|i: int| 0 <= i < s.sessions@.len() && (#[trigger] s.sessions@[i]).id == x;
    assert(1 <= s.sessions@[i].id <= s.next_session);
}

/// After removing one session, exactly its id stops being live.
proof fn lemma_live_after_remove(pre: Service, post: Service, id: SessionId)
    requires
        pre.wf_registry(),
        exists|idx: int|
            0 <= idx < pre.sessions@.len() && (#[trigger] pre.sessions@[idx]).id == id
                && post.sessions@ == pre.sessions@.remove(idx),
    ensures
        forall|x: SessionId| post.live_id(x) <==> (pre.live_id(x) && x != id),
{
    let idx = choose|idx: int|
        0 <= idx < pre.sessions@.len() && (#[trigger] pre.sessions@[idx]).id == id
            && post.sessions@ == pre.sessions@.remove(idx);
    pre.sessions@.remove_ensures(idx);
    assert forall|x: SessionId| post.live_id(x) implies (pre.live_id(x) && x != id) by {
        let j = choose|j: int|
            0 <= j < post.sessions@.len() && (#[trigger] post.sessions@[j]).id == x;
        let pj = if j < idx {
            j
        } else {
            j + 1
        };
        assert(post.sessions@[j] == pre.sessions@[pj]);
        assert(pre.sessions@[pj].id != pre.sessions@[idx].id || pj == idx);
    }
    assert forall|x: SessionId| pre.live_id(x) && x != id implies post.live_id(x) by {
        let j = choose|j: int|
            0 <= j < pre.sessions@.len() && (#[trigger] pre.sessions@[j]).id == x;
        assert(j != idx);
        if j < idx {
            assert(post.sessions@[j] == pre.sessions@[j]);
        } else {
            assert(post.sessions@[j - 1] == pre.sessions@[j]);
        }
    }
}

/// After an accepted open, exactly the fresh id becomes live.
proof fn lemma_live_after_open(pre: Service, post: Service, newid: SessionId)
    requires
        post.sessions@.len() == pre.sessions@.len() + 1,
        post.sessions@.subrange(0, pre.sessions@.len() as int) == pre.sessions@,
        post.sessions@.last().id == newid,
    ensures
        forall|x: SessionId| post.live_id(x) <==> (pre.live_id(x) || x == newid),
{
    let n = pre.sessions@.len() as int;
    assert forall|x: SessionId| post.live_id(x) implies (pre.live_id(x) || x == newid) by {
        let j = choose|j: int|
            0 <= j < post.sessions@.len() && (#[trigger] post.sessions@[j]).id == x;
        if j < n {
            assert(post.sessions@.subrange(0, n)[j] == post.sessions@[j]);
            assert(pre.sessions@[j].id == x);
        }
    }
    assert forall|x: SessionId| pre.live_id(x) || x == newid implies post.live_id(x) by {
        if x == newid {
            assert(post.sessions@[post.sessions@.len() - 1].id == x);
        } else {
            let j = choose|j: int|
                0 <= j < pre.sessions@.len() && (#[trigger] pre.sessions@[j]).id == x;
            assert(post.sessions@.subrange(0, n)[j] == post.sessions@[j]);
            assert(post.sessions@[j].id == x);
        }
    }
}

/// A step that delivers no service-handle events and leaves the session table
/// and counter alone preserves the lifecycle invariant.
proof fn lemma_lifecycle_silent(
    pre: Service,
    post: Service,
    acts: Seq<Action>,
    trace: Seq<Action>,
    id: SessionId,
)
    requires
        forall|i: int| 0 <= i < acts.len() ==> !((#[trigger] acts[i]) is HandleEvent),
        post.sessions == pre.sessions,
        post.next_session == pre.next_session,
        lifecycle_inv(pre, trace, id),
    ensures
        lifecycle_inv(post, trace + acts, id),
{
    assert forall|i: int| 0 <= i < acts.len() implies !act_matches(
        #[trigger] acts[i],
        ActionKey::OpenEvent(id),
    ) && !act_matches(acts[i], ActionKey::CloseEvent(id)) by {}
    lemma_count_acts_zero(acts, ActionKey::OpenEvent(id));
    lemma_count_acts_zero(acts, ActionKey::CloseEvent(id));
    lemma_count_acts_add(trace, acts, ActionKey::OpenEvent(id));
    lemma_count_acts_add(trace, acts, ActionKey::CloseEvent(id));
}

/// A session open preserves the lifecycle invariant: an accepted one delivers
/// the single `SessionOpen` of the fresh id; a rejected one delivers nothing.
proof fn lemma_lifecycle_open(
    pre: Service,
    post: Service,
    key: Option<PublicKey>,
    address: Multiaddr,
    ty: SessionType,
    acts: Seq<Action>,
    accepted: bool,
    trace: Seq<Action>,
    id: SessionId,
)
    requires
        pre.wf_registry(),
        rel_session_open(pre, post, key, address, ty, acts, accepted),
        lifecycle_inv(pre, trace, id),
    ensures
        lifecycle_inv(post, trace + acts, id),
{
    lemma_count_acts_add(trace, acts, ActionKey::OpenEvent(id));
    lemma_count_acts_add(trace, acts, ActionKey::CloseEvent(id));
    if accepted {
        let newid = post.next_session;
        assert(act_matches(acts[1], ActionKey::OpenEvent(newid)));
        assert(!act_matches(acts[0], ActionKey::OpenEvent(newid)));
        lemma_count_single_match(acts, ActionKey::OpenEvent(newid), 1);
        if id != newid {
            assert forall|i: int| 0 <= i < acts.len() implies !act_matches(
                #[trigger] acts[i],
                ActionKey::OpenEvent(id),
            ) by {}
            lemma_count_acts_zero(acts, ActionKey::OpenEvent(id));
        }
        assert forall|i: int| 0 <= i < acts.len() implies !act_matches(
            #[trigger] acts[i],
            ActionKey::CloseEvent(id),
        ) by {}
        lemma_count_acts_zero(acts, ActionKey::CloseEvent(id));
        lemma_live_after_open(pre, post, newid);
        if pre.live_id(id) {
            lemma_live_bounds(pre, id);
        }
    } else {
        assert forall|i: int| 0 <= i < acts.len() implies !act_matches(
            #[trigger] acts[i],
            ActionKey::OpenEvent(id),
        ) && !act_matches(acts[i], ActionKey::CloseEvent(id)) by {
            if i == 0 {
                assert(acts[i] is ShutdownStream);
            } else {
                assert(acts[i] is HandleError);
            }
        }
        lemma_count_acts_zero(acts, ActionKey::OpenEvent(id));
        lemma_count_acts_zero(acts, ActionKey::CloseEvent(id));
    }
}

/// A session close preserves the lifecycle invariant: a live id gets its
/// single `SessionClose` and stops being live; an unknown one gets nothing.
proof fn lemma_lifecycle_close(
    pre: Service,
    post: Service,
    id2: SessionId,
    acts: Seq<Action>,
    trace: Seq<Action>,
    id: SessionId,
)
    requires
        pre.wf(),
        rel_session_close(pre, post, id2, acts),
        lifecycle_inv(pre, trace, id),
    ensures
        lifecycle_inv(post, trace + acts, id),
{
    lemma_count_acts_add(trace, acts, ActionKey::OpenEvent(id));
    lemma_count_acts_add(trace, acts, ActionKey::CloseEvent(id));
    lemma_session_close_event_unique(pre, post, id2, acts, id);
    if pre.live_id(id2) {
        lemma_live_bounds(pre, id2);
        lemma_live_after_remove(pre, post, id2);
    }
}

/// Every reactor step preserves the lifecycle invariant.  Together with
/// `lemma_lifecycle_inv_init` this shows, by induction over any run: each
/// session id ever assigned sees exactly one `SessionOpen`, and exactly one
/// `SessionClose` once the session is gone, the open preceding the close.
pub proof fn lemma_lifecycle_inv_step(
    pre: Service,
    post: Service,
    input: Input,
    acts: Seq<Action>,
    accepted: bool,
    trace: Seq<Action>,
    id: SessionId,
)
    requires
        pre.wf(),
        reactor_step(pre, post, input, acts, accepted),
        lifecycle_inv(pre, trace, id),
    ensures
        lifecycle_inv(post, trace + acts, id),
{
    match input {
        Input::FromSession(ev) => match ev {
            SessionEvent::SessionClose { id: i } => {
                lemma_lifecycle_close(pre, post, i, acts, trace, id);
            },
            SessionEvent::HandshakeSuccess { public_key, address, ty } => {
                if (ty is Outbound && pre.handshakes_outbound == 0) || pre.next_session
                    == u64::MAX {
                    lemma_lifecycle_silent(pre, post, acts, trace, id);
                } else {
                    lemma_lifecycle_open(
                        pre,
                        post,
                        Some(public_key),
                        address,
                        ty,
                        acts,
                        accepted,
                        trace,
                        id,
                    );
                }
            },
            SessionEvent::HandshakeFail { ty, .. } => {
                assert forall|i: int| 0 <= i < acts.len() implies !((#[trigger] acts[i])
                    is HandleEvent) by {
                    assert(acts[i] is HandleError);
                }
                lemma_lifecycle_silent(pre, post, acts, trace, id);
            },
            SessionEvent::ProtocolMessage { id: sid, proto_id, data } => {
                let svc = pre.live_id(sid) && pre.service_proto_handles@.contains(proto_id);
                assert forall|i: int| 0 <= i < acts.len() implies !((#[trigger] acts[i])
                    is HandleEvent) by {
                    if svc && i == 0 {
                        assert(acts[i] is ServiceReceived);
                    } else {
                        assert(acts[i] is SessionReceived);
                    }
                }
                lemma_lifecycle_silent(pre, post, acts, trace, id);
            },
            SessionEvent::ProtocolOpen { id: sid, proto_id, version } => {
                lemma_protocol_open_no_handle_events(pre, post, sid, proto_id, version, acts);
                lemma_lifecycle_silent(pre, post, acts, trace, id);
            },
            SessionEvent::ProtocolClose { id: sid, proto_id } => {
                lemma_protocol_close_no_handle_events(pre, post, sid, proto_id, acts);
                lemma_lifecycle_silent(pre, post, acts, trace, id);
            },
        },
        Input::FromControl(t) => match t {
            ServiceTask::ProtocolMessage { .. } => {
                lemma_lifecycle_silent(pre, post, acts, trace, id);
            },
            ServiceTask::Dial { address } => {
                assert forall|i: int| 0 <= i < acts.len() implies !((#[trigger] acts[i])
                    is HandleEvent) by {
                    assert(acts[i] is StartDial);
                }
                lemma_lifecycle_silent(pre, post, acts, trace, id);
            },
            ServiceTask::Disconnect { session_id } => {
                lemma_lifecycle_close(pre, post, session_id, acts, trace, id);
            },
            ServiceTask::FutureTask => {
                lemma_lifecycle_silent(pre, post, acts, trace, id);
            },
            ServiceTask::ProtocolNotify { .. } => {
                lemma_lifecycle_silent(pre, post, acts, trace, id);
            },
            ServiceTask::ProtocolSessionNotify { .. } => {
                lemma_lifecycle_silent(pre, post, acts, trace, id);
            },
        },
        Input::DialReady(a) => {
            if !has_addr(pre.dials@, a@) {
                lemma_lifecycle_silent(pre, post, acts, trace, id);
            } else if pre.has_key_pair {
                assert forall|i: int| 0 <= i < acts.len() implies !((#[trigger] acts[i])
                    is HandleEvent) by {
                    assert(acts[i] is StartHandshake);
                }
                lemma_lifecycle_silent(pre, post, acts, trace, id);
            } else {
                lemma_lifecycle_open(
                    pre,
                    post,
                    None,
                    a,
                    SessionType::Outbound,
                    acts,
                    accepted,
                    trace,
                    id,
                );
            }
        },
        Input::DialFailed(a, e) => {
            assert forall|i: int| 0 <= i < acts.len() implies !((#[trigger] acts[i])
                is HandleEvent) by {
                assert(acts[i] is HandleError);
            }
            lemma_lifecycle_silent(pre, post, acts, trace, id);
        },
        Input::InboundReady(a) => {
            if pre.has_key_pair {
                assert forall|i: int| 0 <= i < acts.len() implies !((#[trigger] acts[i])
                    is HandleEvent) by {
                    assert(acts[i] is StartHandshake);
                }
                lemma_lifecycle_silent(pre, post, acts, trace, id);
            } else {
                lemma_lifecycle_open(
                    pre,
                    post,
                    None,
                    a,
                    SessionType::Inbound,
                    acts,
                    accepted,
                    trace,
                    id,
                );
            }
        },
        Input::ListenerFailed(a, e) => {
            assert forall|i: int| 0 <= i < acts.len() implies !((#[trigger] acts[i])
                is HandleEvent) by {
                assert(acts[i] is HandleError);
            }
            lemma_lifecycle_silent(pre, post, acts, trace, id);
        },
        Input::ListenBound(a) => {
            lemma_lifecycle_silent(pre, post, acts, trace, id);
        },
        Input::DialCall(a) => {
            assert forall|i: int| 0 <= i < acts.len() implies !((#[trigger] acts[i])
                is HandleEvent) by {
                assert(acts[i] is StartDial);
            }
            lemma_lifecycle_silent(pre, post, acts, trace, id);
        },
    }
}

/// No action of a protocol open is a service-handle event.
proof fn lemma_protocol_open_no_handle_events(
    pre: Service,
    post: Service,
    sid: SessionId,
    pid: ProtocolId,
    version: String,
    acts: Seq<Action>,
)
    requires
        rel_protocol_open(pre, post, sid, pid, version, acts),
    ensures
        forall|i: int| 0 <= i < acts.len() ==> !((#[trigger] acts[i]) is HandleEvent),
        forall|i: int| 0 <= i < acts.len() ==> !((#[trigger] acts[i]) is SessionDisconnected),
    decreases 0int,
{
    if pre.live_id(sid) {
        let created = !pre.service_proto_handles@.contains(pid) && has_handle_spec(
            pre.protocol_configs@,
            false,
            pid,
        );
        let has_svc = pre.service_proto_handles@.contains(pid) || created;
        let ci: int = if created {
            1
        } else {
            0
        };
        assert forall|i: int| 0 <= i < acts.len() implies !((#[trigger] acts[i]) is HandleEvent)
            && !(acts[i] is SessionDisconnected) by {
            if created && i == 0 {
                assert(acts[i] == Action::ServiceInit { proto_id: pid });
            } else if has_svc && i == ci {
                assert(acts[i] is ServiceConnected);
            } else {
                assert(acts[i] is SessionConnected);
            }
        }
    }
}

/// No action of a protocol close is a service-handle event or a session-tier
/// `connected`.
proof fn lemma_protocol_close_no_handle_events(
    pre: Service,
    post: Service,
    sid: SessionId,
    pid: ProtocolId,
    acts: Seq<Action>,
)
    requires
        rel_protocol_close(pre, post, sid, pid, acts),
    ensures
        forall|i: int| 0 <= i < acts.len() ==> !((#[trigger] acts[i]) is HandleEvent),
        forall|i: int| 0 <= i < acts.len() ==> !((#[trigger] acts[i]) is SessionConnected),
{
    let svc = pre.live_id(sid) && pre.service_proto_handles@.contains(pid);
    let si: int = if svc {
        1
    } else {
        0
    };
    assert forall|i: int| 0 <= i < acts.len() implies !((#[trigger] acts[i]) is HandleEvent) && !(
    acts[i] is SessionConnected) by {
        if i == acts.len() - 1 {
            assert(acts[i] == Action::RemoveNotify { session_id: sid, proto_id: pid });
        } else if svc && i == 0 {
            assert(acts[i] == Action::ServiceDisconnected { proto_id: pid, session_id: sid });
        } else {
            assert(acts[i] == Action::SessionDisconnected { session_id: sid, proto_id: pid });
        }
    }
}

// ---------------------------------------------------------------------------
// The handler-lifecycle trace invariant.
// ---------------------------------------------------------------------------

/// The session-handler lifecycle invariant: over the trace delivered so far,
/// a (session, protocol) pair has heard exactly one more `connected` than
/// `disconnected` exactly while a handler is bound for it, and equal numbers
/// otherwise.  Holding after every step, it shows each handler instance hears
/// one `connected`, then exactly one `disconnected`, in that order.
pub open spec fn handler_lifecycle_inv(
    s: Service,
    trace: Seq<Action>,
    sid: SessionId,
    pid: ProtocolId,
) -> bool {
    count_acts(trace, ActionKey::SessConnected(sid, pid)) == count_acts(
        trace,
        ActionKey::SessDisconnected(sid, pid),
    ) + (if s.session_proto_handles@.contains((sid, pid)) {
        1int
    } else {
        0
    })
}

/// A fresh service with an empty trace satisfies the handler invariant.
pub proof fn lemma_handler_lifecycle_inv_init(s: Service, sid: SessionId, pid: ProtocolId)
    requires
        s.session_proto_handles@.len() == 0,
    ensures
        handler_lifecycle_inv(s, Seq::empty(), sid, pid),
{
    assert(!s.session_proto_handles@.contains((sid, pid)));
}

/// A step that emits no session-tier `connected` or `disconnected` and leaves
/// the handler table alone preserves the handler invariant.
proof fn lemma_handler_silent(
    pre: Service,
    post: Service,
    acts: Seq<Action>,
    trace: Seq<Action>,
    sid: SessionId,
    pid: ProtocolId,
)
    requires
        forall|i: int|
            0 <= i < acts.len() ==> !((#[trigger] acts[i]) is SessionConnected) && !(acts[i]
                is SessionDisconnected),
        post.session_proto_handles == pre.session_proto_handles,
        handler_lifecycle_inv(pre, trace, sid, pid),
    ensures
        handler_lifecycle_inv(post, trace + acts, sid, pid),
{
    lemma_count_acts_zero(acts, ActionKey::SessConnected(sid, pid));
    lemma_count_acts_zero(acts, ActionKey::SessDisconnected(sid, pid));
    lemma_count_acts_add(trace, acts, ActionKey::SessConnected(sid, pid));
    lemma_count_acts_add(trace, acts, ActionKey::SessDisconnected(sid, pid));
}

/// A protocol open preserves the handler invariant: the pair hears one
/// `connected` exactly when a handler is freshly bound for it.
proof fn lemma_handler_protocol_open(
    pre: Service,
    post: Service,
    id: SessionId,
    p: ProtocolId,
    version: String,
    acts: Seq<Action>,
    trace: Seq<Action>,
    sid: SessionId,
    pid: ProtocolId,
)
    requires
        pre.wf(),
        rel_protocol_open(pre, post, id, p, version, acts),
        handler_lifecycle_inv(pre, trace, sid, pid),
    ensures
        handler_lifecycle_inv(post, trace + acts, sid, pid),
{
    let ck = ActionKey::SessConnected(sid, pid);
    let dk = ActionKey::SessDisconnected(sid, pid);
    lemma_count_acts_add(trace, acts, ck);
    lemma_count_acts_add(trace, acts, dk);
    if !pre.live_id(id) {
        lemma_count_acts_zero(acts, ck);
        lemma_count_acts_zero(acts, dk);
    } else {
        lemma_protocol_open_no_handle_events(pre, post, id, p, version, acts);
        lemma_count_acts_zero(acts, dk);
        let created = !pre.service_proto_handles@.contains(p) && has_handle_spec(
            pre.protocol_configs@,
            false,
            p,
        );
        let has_svc = pre.service_proto_handles@.contains(p) || created;
        let sess_new = !pre.session_proto_handles@.contains((id, p)) && has_handle_spec(
            pre.protocol_configs@,
            true,
            p,
        );
        let ci: int = if created {
            1
        } else {
            0
        };
        let hi: int = if has_svc {
            1
        } else {
            0
        };
        if sid == id && pid == p {
            lemma_session_handler_connected_once(pre, post, id, p, version, acts);
            if sess_new {
                // freshly bound: the one connected balances the new binding
                assert(post.session_proto_handles@.last() == (id, p));
            }
        } else {
            assert forall|i: int| 0 <= i < acts.len() implies !act_matches(
                #[trigger] acts[i],
                ck,
            ) by {
                if created && i == 0 {
                    assert(acts[i] == Action::ServiceInit { proto_id: p });
                } else if has_svc && i == ci {
                    assert(acts[i] is ServiceConnected);
                } else {
                    assert(acts[i] is SessionConnected);
                    assert(acts[i]->SessionConnected_session_id == id);
                    assert(acts[i]->SessionConnected_proto_id == p);
                }
            }
            lemma_count_acts_zero(acts, ck);
        }
        // how the binding of (sid, pid) fares under the (possible) push
        if sess_new {
            assert(post.session_proto_handles@ == pre.session_proto_handles@.push((id, p)));
            assert forall|q: (u64, u64)|
                post.session_proto_handles@.contains(q) implies pre.session_proto_handles@
                .contains(q) || q == (id, p) by {
                let w = choose|w: int|
                    0 <= w < post.session_proto_handles@.len() && post.session_proto_handles@[w]
                        == q;
                if w < pre.session_proto_handles@.len() {
                    assert(pre.session_proto_handles@[w] == q);
                }
            }
            assert forall|q: (u64, u64)|
                pre.session_proto_handles@.contains(q) implies post.session_proto_handles@
                .contains(q) by {
                let w = choose|w: int|
                    0 <= w < pre.session_proto_handles@.len() && pre.session_proto_handles@[w]
                        == q;
                assert(post.session_proto_handles@[w] == q);
            }
        }
    }
}

/// A protocol close preserves the handler invariant: the bound pair hears one
/// `disconnected` and its binding leaves.
proof fn lemma_handler_protocol_close(
    pre: Service,
    post: Service,
    id: SessionId,
    p: ProtocolId,
    acts: Seq<Action>,
    trace: Seq<Action>,
    sid: SessionId,
    pid: ProtocolId,
)
    requires
        pre.wf(),
        rel_protocol_close(pre, post, id, p, acts),
        handler_lifecycle_inv(pre, trace, sid, pid),
    ensures
        handler_lifecycle_inv(post, trace + acts, sid, pid),
{
    let ck = ActionKey::SessConnected(sid, pid);
    let dk = ActionKey::SessDisconnected(sid, pid);
    lemma_count_acts_add(trace, acts, ck);
    lemma_count_acts_add(trace, acts, dk);
    lemma_protocol_close_no_handle_events(pre, post, id, p, acts);
    lemma_count_acts_zero(acts, ck);
    let svc = pre.live_id(id) && pre.service_proto_handles@.contains(p);
    let si: int = if svc {
        1
    } else {
        0
    };
    if sid == id && pid == p {
        lemma_protocol_close_disconnects_once(pre, post, id, p, acts);
    } else {
        assert forall|i: int| 0 <= i < acts.len() implies !act_matches(#[trigger] acts[i], dk) by {
            if i == acts.len() - 1 {
                assert(acts[i] == Action::RemoveNotify { session_id: id, proto_id: p });
            } else if svc && i == 0 {
                assert(acts[i] == Action::ServiceDisconnected { proto_id: p, session_id: id });
            } else {
                assert(acts[i] == Action::SessionDisconnected { session_id: id, proto_id: p });
            }
        }
        lemma_count_acts_zero(acts, dk);
    }
    lemma_pairs_removed(pre.session_proto_handles@, id, false, p);
    if post.session_proto_handles@.contains((sid, pid)) {
        let w = choose|w: int|
            0 <= w < post.session_proto_handles@.len() && post.session_proto_handles@[w] == (
            sid,
            pid,
            );
        assert(pre.session_proto_handles@.contains((sid, pid)) && keeps_without(
            (sid, pid),
            id,
            false,
            p,
        ));
    }
    if pre.session_proto_handles@.contains((sid, pid)) && (sid, pid) != (id, p) {
        assert(keeps_without((sid, pid), id, false, p));
        assert(post.session_proto_handles@.contains((sid, pid)));
    }
}

/// A session close preserves the handler invariant: every pair bound to the
/// closing session hears one `disconnected` and leaves the table; pairs of
/// other sessions are untouched.
proof fn lemma_handler_session_close(
    pre: Service,
    post: Service,
    id2: SessionId,
    acts: Seq<Action>,
    trace: Seq<Action>,
    sid: SessionId,
    pid: ProtocolId,
)
    requires
        pre.wf(),
        rel_session_close(pre, post, id2, acts),
        handler_lifecycle_inv(pre, trace, sid, pid),
    ensures
        handler_lifecycle_inv(post, trace + acts, sid, pid),
{
    let ck = ActionKey::SessConnected(sid, pid);
    let dk = ActionKey::SessDisconnected(sid, pid);
    lemma_count_acts_add(trace, acts, ck);
    lemma_count_acts_add(trace, acts, dk);
    if !pre.live_id(id2) {
        lemma_count_acts_zero(acts, ck);
        lemma_count_acts_zero(acts, dk);
    } else {
        let head = seq![Action::HandleEvent(ServiceEvent::SessionClose { id: id2 })];
        let disc = sess_disc_acts(pre.session_proto_handles@, id2);
        let svc = svc_close_acts(pre.session_service_protos@, id2, pre.service_proto_handles@);
        lemma_sess_disc_acts_kinds(pre.session_proto_handles@, id2);
        lemma_svc_close_acts_kinds(pre.session_service_protos@, id2, pre.service_proto_handles@);
        // no connected anywhere in a close
        lemma_count_one(Action::HandleEvent(ServiceEvent::SessionClose { id: id2 }), ck);
        lemma_count_acts_zero(disc, ck);
        lemma_count_acts_zero(svc, ck);
        lemma_count_acts_add(head, disc, ck);
        lemma_count_acts_add(head + disc, svc, ck);
        // the one disconnected of each bound pair of the closing session
        lemma_count_one(Action::HandleEvent(ServiceEvent::SessionClose { id: id2 }), dk);
        lemma_count_acts_zero(svc, dk);
        if sid == id2 {
            lemma_sess_disc_count(pre.session_proto_handles@, id2, pid);
        } else {
            assert forall|i: int| 0 <= i < disc.len() implies !act_matches(
                #[trigger] disc[i],
                dk,
            ) by {
                assert(disc[i]->SessionDisconnected_session_id == id2);
            }
            lemma_count_acts_zero(disc, dk);
        }
        lemma_count_acts_add(head, disc, dk);
        lemma_count_acts_add(head + disc, svc, dk);
        // the binding of (sid, pid) after the table retains other sessions
        lemma_pairs_removed(pre.session_proto_handles@, id2, true, 0);
        if post.session_proto_handles@.contains((sid, pid)) {
            let w = choose|w: int|
                0 <= w < post.session_proto_handles@.len() && post.session_proto_handles@[w] == (
                sid,
                pid,
                );
            assert(pre.session_proto_handles@.contains((sid, pid)) && keeps_without(
                (sid, pid),
                id2,
                true,
                0,
            ));
        }
        if pre.session_proto_handles@.contains((sid, pid)) && sid != id2 {
            assert(keeps_without((sid, pid), id2, true, 0));
            assert(post.session_proto_handles@.contains((sid, pid)));
        }
    }
}

/// Every reactor step preserves the handler-lifecycle invariant.  Together
/// with `lemma_handler_lifecycle_inv_init` this shows, by induction over any
/// run: whenever a session-tier handler is created for a pair, exactly one
/// `connected` has been delivered beyond the `disconnected`s, and once it is
/// dropped the counts balance — each handler instance hears one `connected`
/// first and one `disconnected` last.
pub proof fn lemma_handler_lifecycle_inv_step(
    pre: Service,
    post: Service,
    input: Input,
    acts: Seq<Action>,
    accepted: bool,
    trace: Seq<Action>,
    sid: SessionId,
    pid: ProtocolId,
)
    requires
        pre.wf(),
        reactor_step(pre, post, input, acts, accepted),
        handler_lifecycle_inv(pre, trace, sid, pid),
    ensures
        handler_lifecycle_inv(post, trace + acts, sid, pid),
{
    match input {
        Input::FromSession(ev) => match ev {
            SessionEvent::SessionClose { id: i } => {
                lemma_handler_session_close(pre, post, i, acts, trace, sid, pid);
            },
            SessionEvent::HandshakeSuccess { public_key, address, ty } => {
                if (ty is Outbound && pre.handshakes_outbound == 0) || pre.next_session
                    == u64::MAX {
                    lemma_handler_silent(pre, post, acts, trace, sid, pid);
                } else {
                    lemma_handler_open_accept_or_reject(pre, post, acts, trace, sid, pid);
                }
            },
            SessionEvent::HandshakeFail { .. } => {
                assert forall|i: int| 0 <= i < acts.len() implies !((#[trigger] acts[i])
                    is SessionConnected) && !(acts[i] is SessionDisconnected) by {
                    assert(acts[i] is HandleError);
                }
                lemma_handler_silent(pre, post, acts, trace, sid, pid);
            },
            SessionEvent::ProtocolMessage { id: i, proto_id, data } => {
                let svc = pre.live_id(i) && pre.service_proto_handles@.contains(proto_id);
                assert forall|j: int| 0 <= j < acts.len() implies !((#[trigger] acts[j])
                    is SessionConnected) && !(acts[j] is SessionDisconnected) by {
                    if svc && j == 0 {
                        assert(acts[j] is ServiceReceived);
                    } else {
                        assert(acts[j] is SessionReceived);
                    }
                }
                lemma_handler_silent(pre, post, acts, trace, sid, pid);
            },
            SessionEvent::ProtocolOpen { id: i, proto_id, version } => {
                lemma_handler_protocol_open(
                    pre,
                    post,
                    i,
                    proto_id,
                    version,
                    acts,
                    trace,
                    sid,
                    pid,
                );
            },
            SessionEvent::ProtocolClose { id: i, proto_id } => {
                lemma_handler_protocol_close(pre, post, i, proto_id, acts, trace, sid, pid);
            },
        },
        Input::FromControl(t) => match t {
            ServiceTask::ProtocolMessage { .. } => {
                lemma_handler_silent(pre, post, acts, trace, sid, pid);
            },
            ServiceTask::Dial { .. } => {
                assert forall|i: int| 0 <= i < acts.len() implies !((#[trigger] acts[i])
                    is SessionConnected) && !(acts[i] is SessionDisconnected) by {
                    assert(acts[i] is StartDial);
                }
                lemma_handler_silent(pre, post, acts, trace, sid, pid);
            },
            ServiceTask::Disconnect { session_id } => {
                lemma_handler_session_close(pre, post, session_id, acts, trace, sid, pid);
            },
            ServiceTask::FutureTask => {
                lemma_handler_silent(pre, post, acts, trace, sid, pid);
            },
            ServiceTask::ProtocolNotify { .. } => {
                lemma_handler_silent(pre, post, acts, trace, sid, pid);
            },
            ServiceTask::ProtocolSessionNotify { .. } => {
                lemma_handler_silent(pre, post, acts, trace, sid, pid);
            },
        },
        Input::DialReady(a) => {
            if !has_addr(pre.dials@, a@) {
                lemma_handler_silent(pre, post, acts, trace, sid, pid);
            } else if pre.has_key_pair {
                assert forall|i: int| 0 <= i < acts.len() implies !((#[trigger] acts[i])
                    is SessionConnected) && !(acts[i] is SessionDisconnected) by {
                    assert(acts[i] is StartHandshake);
                }
                lemma_handler_silent(pre, post, acts, trace, sid, pid);
            } else {
                lemma_handler_open_accept_or_reject(pre, post, acts, trace, sid, pid);
            }
        },
        Input::DialFailed(..) => {
            assert forall|i: int| 0 <= i < acts.len() implies !((#[trigger] acts[i])
                is SessionConnected) && !(acts[i] is SessionDisconnected) by {
                assert(acts[i] is HandleError);
            }
            lemma_handler_silent(pre, post, acts, trace, sid, pid);
        },
        Input::InboundReady(a) => {
            if pre.has_key_pair {
                assert forall|i: int| 0 <= i < acts.len() implies !((#[trigger] acts[i])
                    is SessionConnected) && !(acts[i] is SessionDisconnected) by {
                    assert(acts[i] is StartHandshake);
                }
                lemma_handler_silent(pre, post, acts, trace, sid, pid);
            } else {
                lemma_handler_open_accept_or_reject(pre, post, acts, trace, sid, pid);
            }
        },
        Input::ListenerFailed(..) => {
            assert forall|i: int| 0 <= i < acts.len() implies !((#[trigger] acts[i])
                is SessionConnected) && !(acts[i] is SessionDisconnected) by {
                assert(acts[i] is HandleError);
            }
            lemma_handler_silent(pre, post, acts, trace, sid, pid);
        },
        Input::ListenBound(..) => {
            lemma_handler_silent(pre, post, acts, trace, sid, pid);
        },
        Input::DialCall(..) => {
            assert forall|i: int| 0 <= i < acts.len() implies !((#[trigger] acts[i])
                is SessionConnected) && !(acts[i] is SessionDisconnected) by {
                assert(acts[i] is StartDial);
            }
            lemma_handler_silent(pre, post, acts, trace, sid, pid);
        },
    }
}

/// A session open, accepted or rejected, touches no handler binding and emits
/// no session-tier callback.
proof fn lemma_handler_open_accept_or_reject(
    pre: Service,
    post: Service,
    acts: Seq<Action>,
    trace: Seq<Action>,
    sid: SessionId,
    pid: ProtocolId,
)
    requires
        exists|key: Option<PublicKey>, address: Multiaddr, ty: SessionType, accepted: bool|
            rel_session_open(pre, post, key, address, ty, acts, accepted),
        handler_lifecycle_inv(pre, trace, sid, pid),
    ensures
        handler_lifecycle_inv(post, trace + acts, sid, pid),
{
    let (key, address, ty, accepted) = choose|
        key: Option<PublicKey>,
        address: Multiaddr,
        ty: SessionType,
        accepted: bool,
    | rel_session_open(pre, post, key, address, ty, acts, accepted);
    if open_rejected(pre, key) {
        assert forall|i: int| 0 <= i < acts.len() implies !((#[trigger] acts[i])
            is SessionConnected) && !(acts[i] is SessionDisconnected) by {
            if i == 0 {
                assert(acts[i] is ShutdownStream);
            } else {
                assert(acts[i] is HandleError);
            }
        }
        lemma_handler_silent(pre, post, acts, trace, sid, pid);
    } else {
        assert forall|i: int| 0 <= i < acts.len() implies !((#[trigger] acts[i])
            is SessionConnected) && !(acts[i] is SessionDisconnected) by {
            if i == 0 {
                assert(acts[i] is SpawnSession);
            } else {
                assert(acts[i] is HandleEvent);
            }
        }
        lemma_handler_silent(pre, post, acts, trace, sid, pid);
    }
}

// ---------------------------------------------------------------------------
// Dispatch is a function of state and task.
// ---------------------------------------------------------------------------

/// One submitted task, dispatched from one state, has exactly one outcome:
/// the callbacks performed and the registries afterwards are determined.
/// (That each submitted task is handed out of the inbox once is the
/// channel's delivery guarantee; this law covers the reactor's half.)
pub proof fn lemma_task_dispatch_deterministic(
    pre: Service,
    post1: Service,
    acts1: Seq<Action>,
    post2: Service,
    acts2: Seq<Action>,
    task: ServiceTask,
)
    requires
        pre.wf(),
        rel_service_task(pre, post1, task, acts1),
        rel_service_task(pre, post2, task, acts2),
    ensures
        acts1 == acts2,
        post1.sessions@ == post2.sessions@,
        post1.next_session == post2.next_session,
        post1.task_count == post2.task_count,
        post1.handshakes_outbound == post2.handshakes_outbound,
        post1.listens@ == post2.listens@,
        addrs_views(post1.dials@) == addrs_views(post2.dials@),
        post1.session_service_protos@ == post2.session_service_protos@,
        post1.service_proto_handles@ == post2.service_proto_handles@,
        post1.session_proto_handles@ == post2.session_proto_handles@,
        post1.service_context.notify_keys@ == post2.service_context.notify_keys@,
{
    match task {
        ServiceTask::ProtocolMessage { .. } => {
            assert(acts1 =~= acts2);
            assert(addrs_views(post1.dials@) == addrs_views(post2.dials@));
        },
        ServiceTask::Dial { address } => {
            if has_addr(pre.dials@, address@) || pre.task_count == usize::MAX {
                assert(acts1 =~= acts2);
            } else {
                assert(addrs_views(post1.dials@) =~= addrs_views(post2.dials@)) by {
                    assert(post1.dials@.len() == post2.dials@.len());
                    assert forall|i: int|
                        0 <= i < post1.dials@.len() implies (#[trigger] post1.dials@[i])@
                        == post2.dials@[i]@ by {
                        if i < pre.dials@.len() {
                            assert(post1.dials@.subrange(0, pre.dials@.len() as int)[i]
                                == post1.dials@[i]);
                            assert(post2.dials@.subrange(0, pre.dials@.len() as int)[i]
                                == post2.dials@[i]);
                        } else {
                            assert(post1.dials@[i] == post1.dials@.last());
                            assert(post2.dials@[i] == post2.dials@.last());
                        }
                    }
                }
            }
        },
        ServiceTask::Disconnect { session_id } => {
            if !pre.live_id(session_id) {
                assert(acts1 =~= acts2);
            } else {
                let idx1 = choose|idx: int|
                    0 <= idx < pre.sessions@.len() && (#[trigger] pre.sessions@[idx]).id
                        == session_id && post1.sessions@ == pre.sessions@.remove(idx);
                let idx2 = choose|idx: int|
                    0 <= idx < pre.sessions@.len() && (#[trigger] pre.sessions@[idx]).id
                        == session_id && post2.sessions@ == pre.sessions@.remove(idx);
                assert(idx1 == idx2) by {
                    if idx1 < idx2 {
                        assert(pre.sessions@[idx1].id != pre.sessions@[idx2].id);
                    } else if idx2 < idx1 {
                        assert(pre.sessions@[idx2].id != pre.sessions@[idx1].id);
                    }
                }
                assert(post1.sessions@ == post2.sessions@);
            }
        },
        ServiceTask::FutureTask => {},
        ServiceTask::ProtocolNotify { proto_id, .. } => {
            if !pre.service_proto_handles@.contains(proto_id) {
                assert(acts1 =~= acts2);
            }
        },
        ServiceTask::ProtocolSessionNotify { session_id, proto_id, .. } => {
            if !pre.session_proto_handles@.contains((session_id, proto_id)) {
                assert(post1.service_context.notify_keys@ == post2.service_context.notify_keys@);
            }
        },
    }
}

// ---------------------------------------------------------------------------
// Termination (and run-forever).
// ---------------------------------------------------------------------------

/// When run-forever is off, the reactor's termination predicate holds as soon
/// as the last listener is gone, the last outbound attempt has resolved
/// (neither a pending dial nor an in-flight handshake remains), and every
/// session has closed; the next tick then reports completion.
pub proof fn lemma_termination_after_work_drains(s: Service)
    requires
        s.wf(),
        !s.forever,
        s.listens@.len() == 0,
        s.dials@.len() == 0,
        s.handshakes_outbound == 0,
        s.sessions@.len() == 0,
    ensures
        s.terminate_predicate(),
{
}

/// With run-forever set, the task counter is pinned at one or more, so a
/// well-formed reactor never meets its termination predicate: it idles,
/// waiting for tasks.
pub proof fn lemma_run_forever_keeps_reactor_alive(s: Service)
    requires
        s.wf(),
        s.forever,
    ensures
        !s.terminate_predicate(),
{
}

// ---------------------------------------------------------------------------
// Id allocation: monotonicity, freshness, nothing for rejected duplicates.
// ---------------------------------------------------------------------------

/// No dispatched session event ever lowers the session counter.
pub proof fn lemma_next_session_monotone_events(
    pre: Service,
    post: Service,
    ev: SessionEvent,
    acts: Seq<Action>,
    accepted: bool,
)
    requires
        pre.wf(),
        rel_session_event(pre, post, ev, acts, accepted),
    ensures
        post.next_session >= pre.next_session,
{
}

/// No dispatched external task ever lowers the session counter.
pub proof fn lemma_next_session_monotone_tasks(
    pre: Service,
    post: Service,
    task: ServiceTask,
    acts: Seq<Action>,
)
    requires
        pre.wf(),
        rel_service_task(pre, post, task, acts),
    ensures
        post.next_session >= pre.next_session,
{
}

/// An accepted open assigns the successor of the counter, an id no live
/// session carries and larger than every id assigned so far.
pub proof fn lemma_open_assigns_fresh_id(
    pre: Service,
    post: Service,
    key: Option<PublicKey>,
    address: Multiaddr,
    ty: SessionType,
    acts: Seq<Action>,
)
    requires
        pre.wf(),
        rel_session_open(pre, post, key, address, ty, acts, true),
    ensures
        post.next_session == pre.next_session + 1,
        !pre.live_id(post.next_session),
        forall|i: int|
            0 <= i < pre.sessions@.len() ==> (#[trigger] pre.sessions@[i]).id < post.next_session,
{
    assert forall|i: int| 0 <= i < pre.sessions@.len() implies (#[trigger] pre.sessions@[i]).id
        < post.next_session by {
        assert(pre.sessions@[i].id <= pre.next_session);
    }
}

/// A rejected duplicate allocates nothing: the counter and the session table
/// stand as they were.
pub proof fn lemma_rejected_duplicate_allocates_nothing(
    pre: Service,
    post: Service,
    key: Option<PublicKey>,
    address: Multiaddr,
    ty: SessionType,
    acts: Seq<Action>,
    accepted: bool,
)
    requires
        pre.wf(),
        rel_session_open(pre, post, key, address, ty, acts, accepted),
        open_rejected(pre, key),
    ensures
        post.next_session == pre.next_session,
        post.sessions == pre.sessions,
        !accepted,
{
}

/// Two accepted opens, the second begun no earlier than the first ended (the
/// counter never moves down in between), assign distinct ids: no id is ever
/// reused.
pub proof fn lemma_assigned_ids_distinct(
    s1: Service,
    s1p: Service,
    k1: Option<PublicKey>,
    a1: Multiaddr,
    t1: SessionType,
    acts1: Seq<Action>,
    s2: Service,
    s2p: Service,
    k2: Option<PublicKey>,
    a2: Multiaddr,
    t2: SessionType,
    acts2: Seq<Action>,
)
    requires
        s1.wf(),
        s2.wf(),
        rel_session_open(s1, s1p, k1, a1, t1, acts1, true),
        rel_session_open(s2, s2p, k2, a2, t2, acts2, true),
        s1p.next_session <= s2.next_session,
    ensures
        s1p.next_session != s2p.next_session,
{
}

// ---------------------------------------------------------------------------
// Duplicate identity (the one-session-per-key invariant).
// ---------------------------------------------------------------------------

/// Two successful handshakes carrying the same remote key, the second arriving
/// while the first's session is live: exactly one live session holds the key,
/// the second open is rejected with `RepeatedConnection` naming the live
/// session's id, and that id is strictly below the id the rejected attempt
/// would have taken.  No id is allocated for the rejected attempt.
pub proof fn lemma_repeated_connection_rejected(
    s0: Service,
    s1: Service,
    key1: PublicKey,
    addr1: Multiaddr,
    ty1: SessionType,
    acts1: Seq<Action>,
    s2: Service,
    key2: PublicKey,
    addr2: Multiaddr,
    ty2: SessionType,
    acts2: Seq<Action>,
    accepted2: bool,
)
    requires
        s0.wf(),
        s1.wf(),
        rel_session_open(s0, s1, Some(key1), addr1, ty1, acts1, true),
        key2@ == key1@,
        rel_session_open(s1, s2, Some(key2), addr2, ty2, acts2, accepted2),
    ensures
        !accepted2,
        s2.next_session == s1.next_session,
        s2.sessions == s1.sessions,
        // exactly one live session carries the key, the one the first open made
        s1.is_live_key_id(key1@, s1.next_session),
        forall|i: int|
            0 <= i < s1.sessions@.len() && has_key(#[trigger] s1.sessions@[i], key1@)
                ==> s1.sessions@[i].id == s1.next_session,
        // the delivered error names that session, whose id is strictly below
        // the id the rejected attempt would have taken
        acts2.len() == 2,
        acts2[1] matches Action::HandleError(e) && repeat_error_names(e, s1.next_session),
        s1.next_session < s1.next_session + 1,
{
    let n0 = s0.sessions@.len() as int;
    // the freshly opened session is the unique carrier of the key
    assert(s1.sessions@.last().id == s1.next_session);
    assert(has_key(s1.sessions@[s1.sessions@.len() - 1], key1@));
    assert(s1.is_live_key_id(key1@, s1.next_session));
    assert forall|i: int|
        0 <= i < s1.sessions@.len() && has_key(#[trigger] s1.sessions@[i], key1@) implies s1
        .sessions@[i].id == s1.next_session by {
        if i < n0 {
            assert(s1.sessions@.subrange(0, n0)[i] == s1.sessions@[i]);
            assert(s0.sessions@[i] == s1.sessions@[i]);
            assert(has_key(s0.sessions@[i], key1@));
            assert(s0.key_live(key1@));
            assert(open_rejected(s0, Some(key1)));
            assert(false);
        }
    }
    assert(s1.key_live(key2@));
    assert(open_rejected(s1, Some(key2)));
    // the error names a live carrier of the key; there is only one
    assert(acts2[1] matches Action::HandleError(e) && rejected_error_matches(
        s1,
        Some(key2),
        addr2,
        ty2,
        e,
    ));
    let e = acts2[1]->HandleError_0;
    match e {
        ServiceError::DialerError { address: _, error } => {
            assert(err_is_live_repeat(s1, Some(key2), error));
            let eid = error->RepeatedConnection_0;
            let w = choose|w: int|
                0 <= w < s1.sessions@.len() && has_key(#[trigger] s1.sessions@[w], key2@)
                    && s1.sessions@[w].id == eid;
            assert(s1.sessions@[w].id == s1.next_session);
        },
        ServiceError::ListenError { address: _, error } => {
            assert(err_is_live_repeat(s1, Some(key2), error));
            let eid = error->RepeatedConnection_0;
            let w = choose|w: int|
                0 <= w < s1.sessions@.len() && has_key(#[trigger] s1.sessions@[w], key2@)
                    && s1.sessions@[w].id == eid;
            assert(s1.sessions@[w].id == s1.next_session);
        },
    }
}

/// The delivered error is a `RepeatedConnection` naming this session id.
pub open spec fn repeat_error_names(e: ServiceError, id: SessionId) -> bool {
    match e {
        ServiceError::DialerError { address: _, error } => error
            == ErrorKind::RepeatedConnection(id),
        ServiceError::ListenError { address: _, error } => error == ErrorKind::RepeatedConnection(
            id,
        ),
    }
}

// ---------------------------------------------------------------------------
// Dial dedup and unknown-session disconnect.
// ---------------------------------------------------------------------------

/// How many pending dials carry these address bytes.
pub open spec fn dial_count(dials: Seq<Multiaddr>, a: Seq<u8>) -> int
    decreases dials.len(),
{
    if dials.len() == 0 {
        0
    } else {
        dial_count(dials.drop_last(), a) + (if dials.last()@ == a {
            1int
        } else {
            0
        })
    }
}

/// A zero count means no pending dial carries the bytes.
pub proof fn lemma_dial_count_has_addr(dials: Seq<Multiaddr>, a: Seq<u8>)
    ensures
        dial_count(dials, a) >= 0,
        (dial_count(dials, a) == 0) <==> !has_addr(dials, a),
    decreases dials.len(),
{
    if dials.len() == 0 {
        assert(!has_addr(dials, a));
    } else {
        lemma_dial_count_has_addr(dials.drop_last(), a);
        if dials.last()@ == a {
            assert(dials[dials.len() - 1]@ == a);
            assert(has_addr(dials, a));
        } else {
            if has_addr(dials, a) {
                let w = choose|w: int| 0 <= w < dials.len() && dials[w]@ == a;
                assert(w < dials.len() - 1);
                assert(dials.drop_last()[w]@ == a);
                assert(has_addr(dials.drop_last(), a));
            }
            if has_addr(dials.drop_last(), a) {
                let w = choose|w: int|
                    0 <= w < dials.drop_last().len() && dials.drop_last()[w]@ == a;
                assert(dials[w]@ == a);
                assert(has_addr(dials, a));
            }
        }
    }
}

/// A `Dial` for an address, then a second `Dial` for the same address while
/// the first is still pending, leave exactly one pending dial for it; the
/// second submission does nothing at all.
pub proof fn lemma_dial_idempotent(
    s0: Service,
    s1: Service,
    acts1: Seq<Action>,
    s2: Service,
    acts2: Seq<Action>,
    addr1: Multiaddr,
    addr2: Multiaddr,
)
    requires
        s0.wf(),
        dial_count(s0.dials@, addr1@) == 0,
        s0.task_count < usize::MAX,
        addr2@ == addr1@,
        rel_service_task(s0, s1, ServiceTask::Dial { address: addr1 }, acts1),
        rel_service_task(s1, s2, ServiceTask::Dial { address: addr2 }, acts2),
    ensures
        dial_count(s2.dials@, addr1@) == 1,
        acts2.len() == 0,
        s2.task_count == s0.task_count + 1,
        s2.dials == s1.dials,
{
    lemma_dial_count_has_addr(s0.dials@, addr1@);
    assert(!has_addr(s0.dials@, addr1@));
    // the first submission enqueued the address
    assert(s1.dials@.len() == s0.dials@.len() + 1);
    assert(s1.dials@.drop_last() =~= s0.dials@);
    assert(dial_count(s1.dials@, addr1@) == dial_count(s0.dials@, addr1@) + 1);
    // so the second sees it pending and does nothing
    assert(s1.dials@[s1.dials@.len() - 1]@ == addr2@);
    assert(has_addr(s1.dials@, addr2@));
}

/// `Disconnect` on an unknown session id is a no-op: no error, no callback,
/// no state change.
pub proof fn lemma_disconnect_unknown_is_noop(
    pre: Service,
    post: Service,
    id: SessionId,
    acts: Seq<Action>,
)
    requires
        pre.wf(),
        !pre.live_id(id),
        rel_service_task(pre, post, ServiceTask::Disconnect { session_id: id }, acts),
    ensures
        post == pre,
        acts.len() == 0,
{
}

} // verus!
