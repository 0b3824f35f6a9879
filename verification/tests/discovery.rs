use monad_peer_discovery::{NodeId, PeerDiscoveryTimerCommand, TimerKind};
use std::time::Duration;

#[test]
fn cloned_timer_commands_are_the_same() {
    let schedule = PeerDiscoveryTimerCommand::Schedule {
        node_id: NodeId::new(3u64),
        timer_kind: TimerKind::RetryPeerLookup { lookup_id: 4 },
        duration: Duration::from_millis(5),
        on_timeout: String::from("again"),
    };
    let copy = schedule.clone();
    assert!(matches!(&copy, PeerDiscoveryTimerCommand::Schedule { .. }));
    assert_eq!(format!("{:?}", copy), format!("{:?}", schedule));

    let reset: PeerDiscoveryTimerCommand<String, u64> = PeerDiscoveryTimerCommand::ScheduleReset {
        node_id: NodeId::new(3),
        timer_kind: TimerKind::SendPing,
    };
    assert_eq!(format!("{:?}", reset.clone()), format!("{:?}", reset));
}

#[test]
fn recovered_keys_become_nodes() {
    assert_eq!(NodeId::from_recovered::<String>(Ok(7)), Ok(NodeId::new(7)));
    assert_eq!(
        NodeId::<u8>::from_recovered(Err(String::from("none"))),
        Err(String::from("none"))
    );
}
