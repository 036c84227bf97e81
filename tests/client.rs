use quad_net::client::{
    current_time_millis, millis_as_u64, plan_websocket, ConnectPlan, IncomingSocketMessage,
    OutgoingSocketMessage, QuadSocket,
};
use quad_net::error::Error;
use quad_net::trust::TrustPolicy;

#[test]
fn plan_for_plain_websocket() {
    match plan_websocket("ws://127.0.0.1:9000/x", false) {
        Ok(ConnectPlan::WebSocket(u)) => assert_eq!(u, "ws://127.0.0.1:9000/x"),
        other => panic!("unexpected {:?}", other),
    }
}

#[test]
fn plan_for_bypassed_wss_strips_scheme() {
    match plan_websocket("wss://localhost:8443", true) {
        Ok(ConnectPlan::InsecureWebSocket(u, hp)) => {
            assert_eq!(u, "wss://localhost:8443");
            assert_eq!(hp, "localhost:8443");
        }
        other => panic!("unexpected {:?}", other),
    }
}

#[test]
fn bypass_without_wss_is_invalid_address() {
    assert!(matches!(plan_websocket("ws://localhost:80", true), Err(Error::InvalidAddress)));
    assert!(matches!(plan_websocket("wss:/x", true), Err(Error::InvalidAddress)));
}

#[test]
fn close_is_queued_once() {
    let (mut sock, link) = QuadSocket::connect("ws://127.0.0.1:1", false);
    assert_eq!(link.trust, TrustPolicy::Enforce);
    sock.send(&[1, 2]);
    sock.close();
    sock.close();
    sock.send(&[3]);
    let mut got = vec![];
    while let Ok(m) = link.commands.try_recv() {
        got.push(m);
    }
    assert_eq!(got.len(), 3);
    assert!(matches!(&got[0], OutgoingSocketMessage::Send(d) if d == &vec![1, 2]));
    assert!(matches!(got[1], OutgoingSocketMessage::Close));
    assert!(matches!(&got[2], OutgoingSocketMessage::Send(d) if d == &vec![3]));
}

#[test]
fn try_recv_keeps_production_order() {
    let (mut sock, link) = QuadSocket::connect_stream("127.0.0.1:1");
    assert!(link.session.is_framed());
    assert!(sock.try_recv().is_none());
    link.events.send(IncomingSocketMessage::Connected).unwrap();
    link.events.send(IncomingSocketMessage::PacketReceived(vec![1], None)).unwrap();
    assert!(matches!(sock.try_recv(), Some(IncomingSocketMessage::Connected)));
    link.events.send(IncomingSocketMessage::PacketReceived(vec![2], None)).unwrap();
    link.events.send(IncomingSocketMessage::Closed).unwrap();
    assert!(matches!(sock.try_recv(), Some(IncomingSocketMessage::PacketReceived(d, None)) if d == vec![1]));
    assert!(matches!(sock.try_recv(), Some(IncomingSocketMessage::PacketReceived(d, None)) if d == vec![2]));
    assert!(matches!(sock.try_recv(), Some(IncomingSocketMessage::Closed)));
    assert!(sock.try_recv().is_none());
    assert!(sock.try_recv().is_none());
}

#[test]
fn bypass_connect_carries_bypass_policy() {
    let (_sock, link) = QuadSocket::connect("wss://h:1", true);
    assert_eq!(link.trust, TrustPolicy::BypassAll);
    assert!(!link.session.is_framed());
    assert!(matches!(link.target, Ok(ConnectPlan::InsecureWebSocket(_, ref hp)) if hp == "h:1"));
}

#[test]
fn millis_conversion() {
    assert_eq!(millis_as_u64(None), 0);
    assert_eq!(millis_as_u64(Some(1234)), 1234);
    assert_eq!(millis_as_u64(Some(u64::MAX as u128 + 5)), u64::MAX);
}

#[test]
fn clock_is_after_2020() {
    assert!(current_time_millis() > 1_577_836_800_000);
}
