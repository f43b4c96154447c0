use ffxiv_act_linux::packets::{decode_packet, SyncPacket};
use ffxiv_act_linux::transport::{
    classify_datagram, keep_alive_magic_bytes, memory_magic_bytes, on_datagram, on_idle,
    Datagram, HeartbeatMonitor, LinkVerdict, ServerAction, Session, CONNECT_WINDOW_SECS,
    MAX_MISSED_HEARTBEATS, READ_WINDOW_SECS,
};

#[test]
fn the_two_tokens() {
    assert_eq!(memory_magic_bytes(), [7, 2, 6, 2, 2, 5, 4, 4]);
    assert_eq!(keep_alive_magic_bytes(), [123, 157, 225, 223, 116, 254, 178, 126]);
}

#[test]
fn datagrams_are_told_apart() {
    assert_eq!(classify_datagram(&[7, 2, 6, 2, 2, 5, 4, 4]), Datagram::Connect);
    assert_eq!(
        classify_datagram(&[123, 157, 225, 223, 116, 254, 178, 126]),
        Datagram::KeepAlive
    );
    assert_eq!(classify_datagram(&[7, 2, 6, 2, 2, 5, 4]), Datagram::Other);
    assert_eq!(classify_datagram(&[7, 2, 6, 2, 2, 5, 4, 4, 0]), Datagram::Other);
    assert_eq!(classify_datagram(&[7, 2, 6, 2, 2, 5, 4, 5]), Datagram::Other);
    assert_eq!(classify_datagram(&[]), Datagram::Other);
    assert_eq!(classify_datagram(&[0; 8]), Datagram::Other);
}

#[test]
fn the_host_answers_the_tokens() {
    let connect = memory_magic_bytes();
    let alive = keep_alive_magic_bytes();
    assert_eq!(on_datagram(&connect, false), ServerAction::Register);
    assert_eq!(on_datagram(&connect, true), ServerAction::Register);
    assert_eq!(on_datagram(&alive, true), ServerAction::Heartbeat);
    assert_eq!(on_datagram(&alive, false), ServerAction::Ignore);
    assert_eq!(on_datagram(&[1, 2, 3], false), ServerAction::Ignore);
    assert_eq!(on_datagram(&[1, 2, 3], true), ServerAction::Ignore);
}

#[test]
fn two_heartbeats_then_three_strikes() {
    let mut monitor = HeartbeatMonitor::new();
    assert!(!monitor.observe(true));
    assert!(!monitor.observe(true));
    assert_eq!(monitor.heartbeats_missed, 0);
    assert!(!monitor.observe(false));
    assert_eq!(monitor.heartbeats_missed, 1);
    assert!(!monitor.observe(false));
    assert_eq!(monitor.heartbeats_missed, 2);
    assert!(monitor.observe(false));
    assert_eq!(monitor.heartbeats_missed, 3);
    assert_eq!(MAX_MISSED_HEARTBEATS, 3);
}

#[test]
fn a_heartbeat_starts_the_count_again() {
    let mut monitor = HeartbeatMonitor::new();
    assert!(!monitor.observe(false));
    assert!(!monitor.observe(false));
    assert!(!monitor.observe(true));
    assert_eq!(monitor.heartbeats_missed, 0);
    assert!(!monitor.observe(false));
    assert!(!monitor.observe(false));
    assert!(monitor.observe(false));
}

#[test]
fn a_session_that_ended_stays_ended() {
    let mut monitor = HeartbeatMonitor { heartbeats_missed: 3 };
    assert!(monitor.observe(true));
    assert!(monitor.observe(false));
    assert_eq!(monitor.heartbeats_missed, 3);
    let mut beyond = HeartbeatMonitor { heartbeats_missed: 200 };
    assert!(beyond.observe(false));
    assert_eq!(beyond.heartbeats_missed, 3);
}

#[test]
fn a_session_numbers_its_frames_from_zero() {
    let mut session = Session::new();
    for expected in 0u64..5 {
        let frame = session.next_frame(SyncPacket::ZoneID(641)).unwrap();
        assert_eq!(decode_packet(&frame), Ok((expected, SyncPacket::ZoneID(641))));
    }
    assert_eq!(session.sync_sequence, 5);
    let mut other = Session::new();
    let frame = other.next_frame(SyncPacket::MobNull(1)).unwrap();
    assert_eq!(frame, vec![3, 0, 0, 0, 0, 0, 0, 0, 0, 1, 0]);
}

#[test]
fn a_session_out_of_numbers_sends_nothing() {
    let mut session = Session { sync_sequence: u64::MAX - 1 };
    assert!(session.next_frame(SyncPacket::MobNull(1)).is_some());
    assert_eq!(session.sync_sequence, u64::MAX);
    assert_eq!(session.next_frame(SyncPacket::MobNull(1)), None);
    assert_eq!(session.sync_sequence, u64::MAX);
}

#[test]
fn a_client_gives_up_after_its_windows() {
    assert_eq!(CONNECT_WINDOW_SECS, 5);
    assert_eq!(READ_WINDOW_SECS, 1);
    assert_eq!(on_idle(false, 0, 0), LinkVerdict::Wait);
    assert_eq!(on_idle(false, 4, 4), LinkVerdict::Wait);
    assert_eq!(on_idle(false, 5, 0), LinkVerdict::UnableToConnect);
    assert_eq!(on_idle(false, 500, 0), LinkVerdict::UnableToConnect);
    assert_eq!(on_idle(true, 500, 0), LinkVerdict::Wait);
    assert_eq!(on_idle(true, 0, 1), LinkVerdict::ReadTimedOut);
    assert_eq!(on_idle(true, 500, 2), LinkVerdict::ReadTimedOut);
}

#[test]
fn a_binding_failure_names_the_address() {
    let e = ffxiv_act_linux::config::ServerError::Binding("0.0.0.0:54992".to_string());
    assert_eq!(e.address(), "0.0.0.0:54992");
    let config = ffxiv_act_linux::config::Config {
        net_config: ffxiv_act_linux::config::NetConfig {
            interface: "eth0".to_string(),
            hostname_exclude: "10.0.0.2".to_string(),
            bind_address: "0.0.0.0:54993".to_string(),
        },
        mem_config: ffxiv_act_linux::config::MemConfig {
            bind_address: "0.0.0.0:54992".to_string(),
        },
    };
    assert_eq!(config.clone(), config);
}
