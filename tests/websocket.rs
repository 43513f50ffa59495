use scale_bridge::registry::{BroadcastPass, ConnectionRegistry, SendFailurePolicy};
use scale_bridge::ws::{
    decimal_text, ends_connection, on_frame, register_client, register_with_id, FrameAction, InboundFrame, WsError,
    WsServer,
};

#[test]
fn registry_insert_replace_remove() {
    let mut r: ConnectionRegistry<u32> = ConnectionRegistry::new();
    assert_eq!(r.len(), 0);
    r.insert("a".to_string(), 1);
    r.insert("b".to_string(), 2);
    r.insert("a".to_string(), 3);
    assert_eq!(r.len(), 2);
    assert!(r.contains(&"a".to_string()));
    assert_eq!(r.remove(&"a".to_string()), Some(3));
    assert_eq!(r.remove(&"a".to_string()), None);
    assert!(!r.contains(&"a".to_string()));
    assert_eq!(r.len(), 1);
}

#[test]
fn registry_ids_snapshot() {
    let mut r: ConnectionRegistry<u32> = ConnectionRegistry::new();
    r.insert("x".to_string(), 1);
    r.insert("y".to_string(), 2);
    let mut ids = r.ids();
    ids.sort();
    assert_eq!(ids, vec!["x".to_string(), "y".to_string()]);
}

#[test]
fn broadcast_with_one_failed_client() {
    let mut r: ConnectionRegistry<u32> = ConnectionRegistry::new();
    for (id, s) in [("a", 1), ("b", 2), ("c", 3)] {
        r.insert(id.to_string(), s);
    }
    let mut reached = Vec::new();
    let mut pass = BroadcastPass::begin(&r);
    while let Some((id, s)) = pass.take_next(&mut r) {
        reached.push(id.clone());
        let delivered = id != "b";
        pass.complete(&mut r, id, s, delivered);
    }
    reached.sort();
    assert_eq!(reached, vec!["a", "b", "c"]);
    assert_eq!(r.len(), 2);
    assert!(!r.contains(&"b".to_string()));
    assert_eq!(r.remove(&"a".to_string()), Some(1));
    assert_eq!(r.remove(&"c".to_string()), Some(3));
}

#[test]
fn broadcast_step_by_step_keeps_delivered() {
    let mut r: ConnectionRegistry<u32> = ConnectionRegistry::new();
    for (id, s) in [("a", 1), ("b", 2), ("c", 3)] {
        r.insert(id.to_string(), s);
    }
    let mut visited = Vec::new();
    for id in r.ids() {
        if let Some(s) = r.remove(&id) {
            visited.push(id.clone());
            r.settle(id, s, true, SendFailurePolicy::Remove);
        }
    }
    assert_eq!(visited.len(), 3);
    assert_eq!(r.len(), 3);
}

#[test]
fn register_with_taken_id_is_refused() {
    let mut r: ConnectionRegistry<u32> = ConnectionRegistry::new();
    assert!(register_with_id(&mut r, "a".to_string(), 1));
    assert!(!register_with_id(&mut r, "a".to_string(), 2));
    assert_eq!(r.len(), 1);
    assert_eq!(r.remove(&"a".to_string()), Some(1));
}

#[test]
fn decimal_digits() {
    assert_eq!(decimal_text(0), "0");
    assert_eq!(decimal_text(7), "7");
    assert_eq!(decimal_text(10), "10");
    assert_eq!(decimal_text(8080), "8080");
    assert_eq!(decimal_text(u32::MAX), "4294967295");
}

#[test]
fn direct_send_failure_keeps_client() {
    let mut r: ConnectionRegistry<u32> = ConnectionRegistry::new();
    r.insert("a".to_string(), 1);
    let s = r.remove(&"a".to_string()).unwrap();
    r.settle("a".to_string(), s, false, SendFailurePolicy::Keep);
    assert!(r.contains(&"a".to_string()));
}

#[test]
fn closed_client_receives_no_broadcast() {
    let mut r: ConnectionRegistry<u32> = ConnectionRegistry::new();
    r.insert("a".to_string(), 1);
    r.insert("b".to_string(), 2);
    let action = on_frame(InboundFrame::Close);
    assert!(ends_connection(&action));
    if action == FrameAction::Deregister {
        r.remove(&"a".to_string());
    }
    assert!(!r.contains(&"a".to_string()));
    assert_eq!(r.ids(), vec!["b".to_string()]);
}

#[test]
fn frame_decisions() {
    assert_eq!(on_frame(InboundFrame::Text("hi".to_string())), FrameAction::Dispatch("hi".to_string()));
    assert_eq!(on_frame(InboundFrame::Other), FrameAction::Ignore);
    assert_eq!(on_frame(InboundFrame::Failed("reset".to_string())), FrameAction::Report("reset".to_string()));
    assert!(!ends_connection(&FrameAction::Ignore));
    assert!(!ends_connection(&FrameAction::Dispatch("x".to_string())));
}

#[test]
fn registered_ids_are_fresh() {
    let mut r: ConnectionRegistry<u32> = ConnectionRegistry::new();
    let a = register_client(&mut r, 1).unwrap();
    let b = register_client(&mut r, 2).unwrap();
    assert_eq!(a.len(), 36);
    assert_ne!(a, b);
    assert_eq!(r.len(), 2);
    assert_eq!(r.remove(&a), Some(1));
}

#[test]
fn listen_address_for_port() {
    let s: WsServer<u32, ()> = WsServer::new(&8080);
    assert_eq!(s.listen_address(), Ok("127.0.0.1:8080".to_string()));
    let s: WsServer<u32, ()> = WsServer::new(&0);
    assert_eq!(s.listen_address(), Ok("127.0.0.1:0".to_string()));
    let s: WsServer<u32, ()> = WsServer::new(&65535);
    assert_eq!(s.listen_address(), Ok("127.0.0.1:65535".to_string()));
}

#[test]
fn invalid_port_is_a_bind_error() {
    let s: WsServer<u32, ()> = WsServer::new(&70000);
    assert!(matches!(s.listen_address(), Err(WsError::BindError(_))));
}

#[test]
fn ws_start_twice_and_bind_failure() {
    let mut s: WsServer<u32, ()> = WsServer::new(&9001);
    assert_eq!(s.start(Err("address in use".to_string())), Err(WsError::BindError("address in use".to_string())));
    assert!(!s.is_running());
    assert_eq!(s.start(Ok(1)), Ok(()));
    assert_eq!(s.start(Ok(2)), Err(WsError::AlreadyRunning));
    assert_eq!(s.listen_address(), Err(WsError::AlreadyRunning));
}

#[test]
fn broadcast_then_stop_empties_registry() {
    let mut s: WsServer<u32, u8> = WsServer::new(&9002).on_message(5);
    assert_eq!(s.message_handler(), &Some(5));
    assert_eq!(s.port(), 9002);
    s.start(Ok(10)).unwrap();
    let mut r: ConnectionRegistry<u32> = ConnectionRegistry::new();
    r.insert("a".to_string(), 1);
    r.insert("b".to_string(), 2);
    let mut sent = Vec::new();
    let mut pass = BroadcastPass::begin(&r);
    while let Some((id, h)) = pass.take_next(&mut r) {
        sent.push((id.clone(), "X"));
        pass.complete(&mut r, id, h, true);
    }
    assert_eq!(r.len(), 2);
    assert_eq!(sent.len(), 2);
    assert!(sent.iter().all(|(_, m)| *m == "X"));
    let (drained, task) = s.stop(&mut r);
    assert_eq!(drained.len(), 2);
    assert_eq!(task, Some(10));
    assert_eq!(r.len(), 0);
    assert!(!s.is_running());
    let (drained, task) = s.stop(&mut r);
    assert!(drained.is_empty());
    assert_eq!(task, None);
}
