use podcast_server::errors::ApiError;
use podcast_server::handshake::check_connect;
use podcast_server::handshake::handshake;
use podcast_server::handshake::remove_connection;
use podcast_server::ports::free_ports;
use podcast_server::registry::Registry;
use podcast_server::state::App;
use podcast_server::watchdog::watchdog_fire;
use podcast_server::watchdog::HOST_GRACE_PERIOD_SECS;

#[test]
fn created_sessions_hold_distinct_ids_and_ports() {
    let mut app = App::new();
    let d1 = app.podcasts.create_session(123, Some(42000)).unwrap();
    let d2 = app.podcasts.create_session(123, Some(42001)).unwrap();
    assert_ne!(d1.id, d2.id);
    assert_eq!(app.podcasts.sessions.len(), 2);
    assert_ne!(
        app.podcasts.sessions[0].audio_port,
        app.podcasts.sessions[1].audio_port
    );
}

#[test]
fn full_range_occupied_creation_fails_cleanly() {
    let occupied: Vec<u16> = (42000..42100).collect();
    assert!(free_ports(&occupied).is_empty());
    let mut reg = Registry::new();
    let r = reg.create_session(123, None);
    assert!(matches!(r, Err(ApiError::AllPortsInUse)));
    assert_eq!(reg.sessions.len(), 0);
}

#[test]
fn free_ports_ascending_within_range() {
    let none: Vec<u16> = Vec::new();
    let all = free_ports(&none);
    assert_eq!(all.len(), 100);
    assert_eq!(all[0], 42000);
    assert_eq!(all[99], 42099);
    for w in all.windows(2) {
        assert!(w[0] < w[1]);
    }
    let occupied = vec![42000, 42005];
    let r = free_ports(&occupied);
    assert_eq!(r.len(), 98);
    assert_eq!(r[0], 42001);
    assert!(!r.contains(&42000));
    assert!(!r.contains(&42005));
}

#[test]
fn pending_session_has_host_and_no_activity() {
    let mut app = App::new();
    let d = app.podcasts.create_session(123, Some(42000)).unwrap();
    assert_eq!(d.host, 123);
    assert_eq!(d.active_since, None);
    let read_back = app.podcasts.get_data(d.id).unwrap();
    assert_eq!(read_back, d);
}

#[test]
fn watchdog_evicts_pending_session() {
    let mut app = App::new();
    let d = app.podcasts.create_session(123, Some(42000)).unwrap();
    assert!(app.podcasts.get_data(d.id).is_some());
    let removed = watchdog_fire(&mut app.podcasts, d.id);
    assert!(removed);
    assert!(app.podcasts.get_data(d.id).is_none());
}

#[test]
fn watchdog_spares_activated_session() {
    assert_eq!(HOST_GRACE_PERIOD_SECS, 60);
    let mut app = App::new();
    let d = app.podcasts.create_session(123, Some(42000)).unwrap();
    handshake(&mut app.podcasts, d.id, 123, 1000).unwrap();
    let removed = watchdog_fire(&mut app.podcasts, d.id);
    assert!(!removed);
    assert!(app.podcasts.get_data(d.id).is_some());
}

#[test]
fn watchdog_tolerates_vanished_session() {
    let mut reg = Registry::new();
    assert!(!watchdog_fire(&mut reg, 7));
    assert_eq!(reg.sessions.len(), 0);
}

#[test]
fn guest_rejected_before_activation_admitted_after() {
    let mut app = App::new();
    let d = app.podcasts.create_session(123, Some(42000)).unwrap();
    assert!(matches!(
        check_connect(&app.podcasts, d.id, 345),
        Err(ApiError::InactiveSession)
    ));
    let r = handshake(&mut app.podcasts, d.id, 345, 500);
    assert!(matches!(r, Err(ApiError::InactiveSession)));
    handshake(&mut app.podcasts, d.id, 123, 1000).unwrap();
    assert!(check_connect(&app.podcasts, d.id, 345).is_ok());
    let reply = handshake(&mut app.podcasts, d.id, 345, 2000).unwrap();
    assert_eq!(reply.port, 42000);
}

#[test]
fn hello_delivered_only_once_registered() {
    let mut app = App::new();
    let d = app.podcasts.create_session(123, Some(42017)).unwrap();
    let reply = handshake(&mut app.podcasts, d.id, 123, 1000).unwrap();
    assert_eq!(reply.port, 42017);
    assert_eq!(reply.hello, "{\"event_type\":1,\"data\":{\"port\":42017}}");
    let i = app.podcasts.find(d.id).unwrap();
    assert!(app.podcasts.sessions[i].get_client_session(123).is_some());
    assert_eq!(
        app.podcasts.get_data(d.id).unwrap().active_since,
        Some(1000)
    );
}

#[test]
fn host_reconnect_does_not_reset_activation() {
    let mut app = App::new();
    let d = app.podcasts.create_session(123, Some(42000)).unwrap();
    handshake(&mut app.podcasts, d.id, 123, 1000).unwrap();
    handshake(&mut app.podcasts, d.id, 123, 2000).unwrap();
    assert_eq!(
        app.podcasts.get_data(d.id).unwrap().active_since,
        Some(1000)
    );
}

#[test]
fn unknown_session_is_not_found() {
    let mut app = App::new();
    assert!(matches!(
        check_connect(&app.podcasts, 42, 123),
        Err(ApiError::NotFound)
    ));
    let r = handshake(&mut app.podcasts, 42, 123, 1000);
    assert!(matches!(r, Err(ApiError::NotFound)));
}

#[test]
fn closed_connection_is_unregistered() {
    let mut app = App::new();
    let d = app.podcasts.create_session(123, Some(42000)).unwrap();
    handshake(&mut app.podcasts, d.id, 123, 1000).unwrap();
    handshake(&mut app.podcasts, d.id, 345, 2000).unwrap();
    remove_connection(&mut app.podcasts, d.id, 345);
    let i = app.podcasts.find(d.id).unwrap();
    assert!(app.podcasts.sessions[i].get_client_session(345).is_none());
    assert!(app.podcasts.sessions[i].get_client_session(123).is_some());
    remove_connection(&mut app.podcasts, 42, 345);
}

#[test]
fn generated_id_is_fresh() {
    let mut app = App::new();
    let d = app.podcasts.create_session(123, Some(42000)).unwrap();
    let id = app.podcasts.generate_id().unwrap();
    assert_ne!(id, d.id);
    assert!(!app.podcasts.contains(id));
}
