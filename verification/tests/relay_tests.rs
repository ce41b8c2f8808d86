use tg_unblock::relay::{relay_decide, RelayAction, RelayEvent};

#[test]
fn relay_forwards_both_ways() {
    match relay_decide(RelayEvent::ServerBinary(vec![1, 2, 3])) {
        RelayAction::ForwardToClient(d) => assert_eq!(d, vec![1, 2, 3]),
        _ => panic!("server data goes to the client"),
    }
    match relay_decide(RelayEvent::ClientRead(vec![9, 8])) {
        RelayAction::ForwardToServer(d) => assert_eq!(d, vec![9, 8]),
        _ => panic!("client data goes to the server"),
    }
}

#[test]
fn relay_keepalive() {
    assert!(matches!(relay_decide(RelayEvent::PingTick), RelayAction::SendPing));
    match relay_decide(RelayEvent::ServerPing(vec![7])) {
        RelayAction::SendPong(p) => assert_eq!(p, vec![7]),
        _ => panic!("a ping is answered"),
    }
    assert!(matches!(relay_decide(RelayEvent::ServerOther), RelayAction::Continue));
}

#[test]
fn relay_stops() {
    assert!(matches!(relay_decide(RelayEvent::ClientRead(vec![])), RelayAction::Stop));
    assert!(matches!(relay_decide(RelayEvent::ClientError), RelayAction::Stop));
    assert!(matches!(relay_decide(RelayEvent::ServerClose), RelayAction::Stop));
    assert!(matches!(relay_decide(RelayEvent::ServerEnded), RelayAction::Stop));
    assert!(matches!(relay_decide(RelayEvent::ServerError), RelayAction::Stop));
}

#[test]
fn relay_failure_policy() {
    assert!(RelayAction::ForwardToClient(vec![1]).stops_on_failure());
    assert!(RelayAction::ForwardToServer(vec![1]).stops_on_failure());
    assert!(!RelayAction::SendPing.stops_on_failure());
    assert!(!RelayAction::SendPong(vec![]).stops_on_failure());
}
