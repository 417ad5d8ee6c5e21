//! End-to-end exercises of the reactor state machine: session lifecycles,
//! duplicate identities, dial handling, dispatch, and termination.

use p2p_core::service::Service;
use p2p_core::types::Action;
use p2p_core::types::ErrorKind;
use p2p_core::types::Multiaddr;
use p2p_core::types::ProtoConfig;
use p2p_core::types::PublicKey;
use p2p_core::types::ServiceError;
use p2p_core::types::ServiceEvent;
use p2p_core::types::ServiceTask;
use p2p_core::types::SessionEvent;
use p2p_core::types::SessionType;

fn cfg(id: u64, name: &str, versions: &[&str], svc: bool, sess: bool) -> ProtoConfig {
    ProtoConfig {
        id,
        name: name.to_string(),
        versions: versions.iter().map(|v| v.to_string()).collect(),
        has_service_handle: svc,
        has_session_handle: sess,
    }
}

fn addr(s: &str) -> Multiaddr {
    Multiaddr { bytes: s.as_bytes().to_vec() }
}

fn key(s: &str) -> PublicKey {
    PublicKey { bytes: s.as_bytes().to_vec() }
}

fn one_proto_service(has_key_pair: bool, forever: bool) -> Service {
    Service::new(vec![cfg(1, "proto_one", &["0.1"], true, true)], has_key_pair, forever, 100)
}

#[test]
fn inbound_no_crypto_full_lifecycle() {
    let mut s = one_proto_service(false, false);
    let a = addr("/ip4/127.0.0.1/tcp/1337");

    let (acts, rx) = s.accept_ready(addr("/ip4/127.0.0.1/tcp/1337"));
    assert_eq!(
        acts,
        vec![
            Action::SpawnSession { session_id: 1, ty: SessionType::Inbound, open_all_protocols: false },
            Action::HandleEvent(ServiceEvent::SessionOpen {
                id: 1,
                address: a.clone(),
                ty: SessionType::Inbound,
                public_key: None,
            }),
        ]
    );
    let (sid, _session_rx) = rx.expect("an accepted open hands back the session's channel");
    assert_eq!(sid, 1);

    let acts = s.protocol_open(1, 1, "0.1".to_string());
    assert_eq!(
        acts,
        vec![
            Action::ServiceInit { proto_id: 1 },
            Action::ServiceConnected { proto_id: 1, session_id: 1, version: "0.1".to_string() },
            Action::SessionConnected { session_id: 1, proto_id: 1, version: "0.1".to_string() },
        ]
    );

    let acts = s.protocol_message(1, 1, b"hello".to_vec());
    assert_eq!(
        acts,
        vec![
            Action::ServiceReceived { proto_id: 1, session_id: 1, data: b"hello".to_vec() },
            Action::SessionReceived { session_id: 1, proto_id: 1, data: b"hello".to_vec() },
        ]
    );

    let acts = s.protocol_close(1, 1);
    assert_eq!(
        acts,
        vec![
            Action::ServiceDisconnected { proto_id: 1, session_id: 1 },
            Action::SessionDisconnected { session_id: 1, proto_id: 1 },
            Action::RemoveNotify { session_id: 1, proto_id: 1 },
        ]
    );

    let acts = s.session_close(1);
    assert_eq!(acts, vec![Action::HandleEvent(ServiceEvent::SessionClose { id: 1 })]);
    assert_eq!(s.sessions.len(), 0);

    // nothing is left: the reactor terminates
    let (done, acts, rxs) = s.tick();
    assert!(done);
    assert!(acts.is_empty());
    assert!(rxs.is_empty());
}

#[test]
fn session_close_disconnects_every_session_handler() {
    let mut s = Service::new(
        vec![
            cfg(1, "proto_one", &["0.1"], true, true),
            cfg(2, "proto_two", &["0.1", "0.2"], false, true),
        ],
        false,
        false,
        100,
    );
    let _ = s.accept_ready(addr("/peer"));
    let _ = s.protocol_open(1, 1, "0.1".to_string());
    let _ = s.protocol_open(1, 2, "0.2".to_string());
    assert_eq!(s.session_proto_handles, vec![(1, 1), (1, 2)]);
    assert_eq!(s.session_service_protos, vec![(1, 1)]);

    let acts = s.session_close(1);
    assert_eq!(
        acts,
        vec![
            Action::HandleEvent(ServiceEvent::SessionClose { id: 1 }),
            Action::SessionDisconnected { session_id: 1, proto_id: 1 },
            Action::SessionDisconnected { session_id: 1, proto_id: 2 },
            Action::RemoveNotify { session_id: 1, proto_id: 1 },
            Action::ServiceDisconnected { proto_id: 1, session_id: 1 },
        ]
    );
    assert!(s.session_proto_handles.is_empty());
    assert!(s.session_service_protos.is_empty());

    // a second close of the same id is silent
    let acts = s.session_close(1);
    assert!(acts.is_empty());
}

#[test]
fn outbound_dial_with_key_pair() {
    let mut s = one_proto_service(true, false);
    let a = addr("/ip4/10.0.0.1/tcp/7");

    let acts = s.dial(addr("/ip4/10.0.0.1/tcp/7"));
    assert_eq!(acts, vec![Action::StartDial { address: a.clone() }]);
    assert_eq!(s.task_count, 1);

    let (acts, rx) = s.dial_ready(addr("/ip4/10.0.0.1/tcp/7"));
    assert_eq!(
        acts,
        vec![Action::StartHandshake { ty: SessionType::Outbound, address: a.clone() }]
    );
    assert!(rx.is_none());
    assert_eq!(s.task_count, 1, "the socket stays counted while its handshake runs");

    let (acts, rx) = s.handle_session_event(SessionEvent::HandshakeSuccess {
        public_key: key("peer-key"),
        address: a.clone(),
        ty: SessionType::Outbound,
    });
    assert_eq!(
        acts,
        vec![
            Action::SpawnSession { session_id: 1, ty: SessionType::Outbound, open_all_protocols: true },
            Action::HandleEvent(ServiceEvent::SessionOpen {
                id: 1,
                address: a,
                ty: SessionType::Outbound,
                public_key: Some(key("peer-key")),
            }),
        ]
    );
    assert!(rx.is_some());
    assert_eq!(s.task_count, 0, "the outbound task resolves after session open");
}

#[test]
fn dial_timeout_resolves_task_and_reactor_terminates() {
    let mut s = one_proto_service(true, false);
    let a = addr("/ip4/10.9.9.9/tcp/1");
    let _ = s.dial(addr("/ip4/10.9.9.9/tcp/1"));

    let acts = s.dial_error(addr("/ip4/10.9.9.9/tcp/1"), ErrorKind::TimedOut);
    assert_eq!(
        acts,
        vec![Action::HandleError(ServiceError::DialerError {
            address: a,
            error: ErrorKind::TimedOut,
        })]
    );
    assert_eq!(s.task_count, 0);

    let (done, _, _) = s.tick();
    assert!(done);
}

#[test]
fn duplicate_identity_rejected_with_live_session_id() {
    let mut s = one_proto_service(true, false);

    // first handshake wins a session
    let _ = s.accept_ready(addr("/peer-a"));
    let (acts, rx) = s.handle_session_event(SessionEvent::HandshakeSuccess {
        public_key: key("same-key"),
        address: addr("/peer-a"),
        ty: SessionType::Inbound,
    });
    assert_eq!(acts.len(), 2);
    assert!(rx.is_some());
    assert_eq!(s.next_session, 1);

    // second handshake with the same key, outbound side
    let _ = s.dial(addr("/peer-b"));
    let _ = s.dial_ready(addr("/peer-b"));
    let (acts, rx) = s.handle_session_event(SessionEvent::HandshakeSuccess {
        public_key: key("same-key"),
        address: addr("/peer-b"),
        ty: SessionType::Outbound,
    });
    assert_eq!(
        acts,
        vec![
            Action::ShutdownStream,
            Action::HandleError(ServiceError::DialerError {
                address: addr("/peer-b"),
                error: ErrorKind::RepeatedConnection(1),
            }),
        ]
    );
    assert!(rx.is_none());
    assert_eq!(s.next_session, 1, "no id is allocated for the rejected duplicate");
    assert_eq!(s.sessions.len(), 1);
    assert_eq!(s.task_count, 0, "the rejected outbound attempt still resolves its task");
}

#[test]
fn handshake_failures_report_only_outbound() {
    let mut s = one_proto_service(true, false);
    let _ = s.dial(addr("/peer"));
    let _ = s.dial_ready(addr("/peer"));

    // an inbound failure is silent and changes nothing
    let (acts, _) = s.handle_session_event(SessionEvent::HandshakeFail {
        ty: SessionType::Inbound,
        error: ErrorKind::HandshakeFailed,
        address: addr("/other"),
    });
    assert!(acts.is_empty());
    assert_eq!(s.task_count, 1);

    // the outbound failure resolves the task and surfaces a dialer error
    let (acts, _) = s.handle_session_event(SessionEvent::HandshakeFail {
        ty: SessionType::Outbound,
        error: ErrorKind::TimedOut,
        address: addr("/peer"),
    });
    assert_eq!(
        acts,
        vec![Action::HandleError(ServiceError::DialerError {
            address: addr("/peer"),
            error: ErrorKind::TimedOut,
        })]
    );
    assert_eq!(s.task_count, 0);
}

#[test]
fn broadcast_reaches_chosen_sessions() {
    let mut s = one_proto_service(false, false);
    let mut receivers = Vec::new();
    for name in ["/p1", "/p2", "/p3"] {
        let (_, rx) = s.accept_ready(addr(name));
        receivers.push(rx.expect("accepted").1);
    }
    assert_eq!(s.sessions.len(), 3);

    assert_eq!(s.broadcast_targets(&None), vec![1, 2, 3]);
    assert_eq!(s.broadcast_targets(&Some(vec![3, 1, 9])), vec![1, 3]);

    let offered = s.filter_broadcast(None, 1, &b"x".to_vec());
    assert_eq!(offered, vec![1, 2, 3], "a broadcast offers the payload to every live session");
    for (i, rx) in receivers.iter_mut().enumerate() {
        let got = rx.try_next().expect("a message is waiting").expect("channel open");
        assert_eq!(
            got,
            SessionEvent::ProtocolMessage { id: (i + 1) as u64, proto_id: 1, data: b"x".to_vec() },
        );
    }

    let offered = s.filter_broadcast(Some(vec![1, 3]), 1, &b"y".to_vec());
    assert_eq!(offered, vec![1, 3], "a targeted send offers exactly to the listed sessions");
    assert!(receivers[0].try_next().unwrap().is_some());
    assert!(receivers[1].try_next().is_err(), "session 2 was not addressed");
    assert!(receivers[2].try_next().unwrap().is_some());

    assert!(s.send_message(2, 1, &b"z".to_vec()), "the live session is offered the message");
    assert!(receivers[0].try_next().is_err());
    assert_eq!(
        receivers[1].try_next().unwrap().unwrap(),
        SessionEvent::ProtocolMessage { id: 2, proto_id: 1, data: b"z".to_vec() },
    );

    // an unknown session id loses the message silently
    assert!(!s.send_message(9, 1, &b"q".to_vec()));
}

#[test]
fn run_forever_keeps_the_reactor_idle() {
    let mut s = one_proto_service(false, true);
    assert_eq!(s.task_count, 1);
    let (done, acts, rxs) = s.tick();
    assert!(!done);
    assert!(acts.is_empty());
    assert!(rxs.is_empty());
}

#[test]
fn dial_task_is_idempotent_while_pending() {
    let mut s = one_proto_service(false, true);
    let acts = s.handle_service_task(ServiceTask::Dial { address: addr("/peer") });
    assert_eq!(acts, vec![Action::StartDial { address: addr("/peer") }]);
    let acts = s.handle_service_task(ServiceTask::Dial { address: addr("/peer") });
    assert!(acts.is_empty(), "a pending dial swallows the duplicate");
    assert_eq!(s.dials.len(), 1);
    assert_eq!(s.task_count, 2, "the run-forever sentinel plus one pending dial");

    // once resolved, the address may be dialed again
    let _ = s.dial_error(addr("/peer"), ErrorKind::IoError);
    let acts = s.handle_service_task(ServiceTask::Dial { address: addr("/peer") });
    assert_eq!(acts.len(), 1);
}

#[test]
fn every_error_kind_travels_to_the_handle() {
    let mut s = one_proto_service(true, false);
    for kind in [
        ErrorKind::IoError,
        ErrorKind::TimerError,
        ErrorKind::TimedOut,
        ErrorKind::HandshakeFailed,
        ErrorKind::InvalidAddress,
    ] {
        let _ = s.dial(addr("/peer"));
        let acts = s.dial_error(addr("/peer"), kind);
        assert_eq!(
            acts,
            vec![Action::HandleError(ServiceError::DialerError {
                address: addr("/peer"),
                error: kind,
            })]
        );
    }
    assert_eq!(s.task_count, 0);
}

#[test]
fn disconnect_unknown_session_is_a_noop() {
    let mut s = one_proto_service(false, true);
    let acts = s.handle_service_task(ServiceTask::Disconnect { session_id: 42 });
    assert!(acts.is_empty());
    assert_eq!(s.sessions.len(), 0);
    assert_eq!(s.next_session, 0);
}

#[test]
fn notify_tasks_reach_existing_handlers_only() {
    let mut s = one_proto_service(false, true);
    let _ = s.accept_ready(addr("/peer"));
    let _ = s.protocol_open(1, 1, "0.1".to_string());

    let acts = s.handle_service_task(ServiceTask::ProtocolNotify { proto_id: 1, token: 7 });
    assert_eq!(acts, vec![Action::ServiceNotify { proto_id: 1, token: 7 }]);
    let acts = s.handle_service_task(ServiceTask::ProtocolNotify { proto_id: 2, token: 7 });
    assert!(acts.is_empty());

    let acts = s.handle_service_task(ServiceTask::ProtocolSessionNotify {
        session_id: 1,
        proto_id: 1,
        token: 9,
    });
    assert_eq!(acts, vec![Action::SessionNotify { session_id: 1, proto_id: 1, token: 9 }]);

    // a lingering notify key for a protocol with no handler is cleaned up
    let _ = s.protocol_open(1, 2, "0.1".to_string());
    s.service_context.register_session_notify_sender(1, 2);
    let _ = s.protocol_close(1, 2);
    let acts = s.handle_service_task(ServiceTask::ProtocolSessionNotify {
        session_id: 1,
        proto_id: 2,
        token: 3,
    });
    assert_eq!(acts, vec![Action::RemoveNotify { session_id: 1, proto_id: 2 }]);

    // with no handler left for the whole session, the key is still dropped
    let _ = s.protocol_close(1, 1);
    s.service_context.register_session_notify_sender(1, 1);
    let acts = s.handle_service_task(ServiceTask::ProtocolSessionNotify {
        session_id: 1,
        proto_id: 1,
        token: 4,
    });
    assert_eq!(acts, vec![Action::RemoveNotify { session_id: 1, proto_id: 1 }]);
    assert!(s.service_context.notify_keys.is_empty());
}

#[test]
fn reopening_a_protocol_spares_the_bound_session_handler() {
    let mut s = one_proto_service(false, false);
    let _ = s.accept_ready(addr("/peer"));
    let first = s.protocol_open(1, 1, "0.1".to_string());
    assert_eq!(first.len(), 3);
    let second = s.protocol_open(1, 1, "0.1".to_string());
    // the service-tier handler hears `connected` again; the session-tier
    // handler is already bound and is left alone
    assert_eq!(
        second,
        vec![Action::ServiceConnected { proto_id: 1, session_id: 1, version: "0.1".to_string() }]
    );
    assert_eq!(s.session_proto_handles, vec![(1, 1)]);

    // a protocol open on an unknown session changes nothing
    let acts = s.protocol_open(9, 1, "0.1".to_string());
    assert!(acts.is_empty());
}

#[test]
fn listen_addresses_are_published_and_errors_drop_one_listener() {
    let mut s = one_proto_service(false, false);
    s.listen(addr("/ip4/0.0.0.0/tcp/10"));
    s.listen(addr("/ip4/0.0.0.0/tcp/11"));
    assert_eq!(s.listens.len(), 2);
    assert_eq!(s.service_context.listens().len(), 2);

    let acts = s.listen_error(addr("/ip4/0.0.0.0/tcp/10"), ErrorKind::IoError);
    assert_eq!(
        acts,
        vec![Action::HandleError(ServiceError::ListenError {
            address: addr("/ip4/0.0.0.0/tcp/10"),
            error: ErrorKind::IoError,
        })]
    );
    assert_eq!(s.listens, vec![addr("/ip4/0.0.0.0/tcp/11")]);
    assert_eq!(s.service_context.listens().len(), 1);

    let (done, _, _) = s.tick();
    assert!(!done, "one listener still stands");
    let _ = s.listen_error(addr("/ip4/0.0.0.0/tcp/11"), ErrorKind::IoError);
    let (done, _, _) = s.tick();
    assert!(done);
}

#[test]
fn control_handle_feeds_the_task_inbox_exactly_once() {
    let mut s = one_proto_service(false, true);
    let mut handle = s.control().clone_control();
    assert!(handle.send_task(ServiceTask::FutureTask));
    let (done, acts, _) = s.tick();
    assert!(!done);
    assert_eq!(acts, vec![Action::SpawnFuture], "one submission, one dispatch");
    let (_, acts, _) = s.tick();
    assert!(acts.is_empty(), "nothing is dispatched twice");
}

#[test]
fn session_events_flow_through_the_inbox() {
    let mut s = one_proto_service(false, true);
    let _ = s.accept_ready(addr("/peer"));
    let mut tx = s.event_sender();
    tx.try_send(SessionEvent::ProtocolOpen { id: 1, proto_id: 1, version: "0.1".to_string() })
        .unwrap();
    tx.try_send(SessionEvent::SessionClose { id: 1 }).unwrap();
    let (done, acts, _) = s.tick();
    assert!(!done);
    assert_eq!(
        acts,
        vec![
            Action::ServiceInit { proto_id: 1 },
            Action::ServiceConnected { proto_id: 1, session_id: 1, version: "0.1".to_string() },
            Action::SessionConnected { session_id: 1, proto_id: 1, version: "0.1".to_string() },
            Action::HandleEvent(ServiceEvent::SessionClose { id: 1 }),
            Action::SessionDisconnected { session_id: 1, proto_id: 1 },
            Action::RemoveNotify { session_id: 1, proto_id: 1 },
            Action::ServiceDisconnected { proto_id: 1, session_id: 1 },
        ]
    );
    assert!(s.sessions.is_empty());
}

#[test]
fn ids_grow_and_are_never_reused() {
    let mut s = one_proto_service(false, false);
    let (_, rx) = s.accept_ready(addr("/p1"));
    assert_eq!(rx.unwrap().0, 1);
    let (_, rx) = s.accept_ready(addr("/p2"));
    assert_eq!(rx.unwrap().0, 2);
    let _ = s.session_close(1);
    let (_, rx) = s.accept_ready(addr("/p3"));
    assert_eq!(rx.unwrap().0, 3, "a closed session's id is not reused");
    assert_eq!(s.next_session, 3);
}
