use scale_bridge::lifecycle::{service_message, LifecycleError, ServiceKind, TaskSlot};
use scale_bridge::serial::{read_step, ReadLoop, SerialError, SerialServer};

#[test]
fn second_start_is_refused() {
    let mut slot: TaskSlot<u32> = TaskSlot::new();
    assert_eq!(slot.start(1), Ok(()));
    assert_eq!(slot.start(2), Err(LifecycleError::AlreadyRunning));
    assert!(slot.is_running());
    assert_eq!(slot.stop(), Ok(1));
    assert!(!slot.is_running());
}

#[test]
fn stop_when_idle_is_refused() {
    let mut slot: TaskSlot<u32> = TaskSlot::new();
    assert_eq!(slot.stop(), Err(LifecycleError::NotRunning));
    assert_eq!(slot.check_start(), Ok(()));
    slot.start(7).unwrap();
    assert_eq!(slot.check_start(), Err(LifecycleError::AlreadyRunning));
    assert_eq!(slot.stop(), Ok(7));
    assert_eq!(slot.stop(), Err(LifecycleError::NotRunning));
}

#[test]
fn service_messages() {
    assert_eq!(service_message(ServiceKind::WebSocket, LifecycleError::AlreadyRunning), "WebSocket服务已经在运行中");
    assert_eq!(service_message(ServiceKind::WebSocket, LifecycleError::NotRunning), "WebSocket服务未启动");
    assert_eq!(service_message(ServiceKind::Serial, LifecycleError::AlreadyRunning), "串口服务已经在运行中");
    assert_eq!(service_message(ServiceKind::Serial, LifecycleError::NotRunning), "串口服务未启动");
}

#[test]
fn serial_open_failure_leaves_idle() {
    let mut s: SerialServer<u32, ()> = SerialServer::new("/dev/does-not-exist", &9600);
    let r = s.start(Err("No such file or directory".to_string()));
    assert_eq!(r, Err(SerialError::OpenError("No such file or directory".to_string())));
    assert!(!s.is_running());
    assert_eq!(s.stop(), Err(SerialError::NotListening));
}

#[test]
fn serial_start_twice_then_stop() {
    let mut s: SerialServer<u32, ()> = SerialServer::new("COM3", &9600);
    assert_eq!(s.port_name(), "COM3");
    assert_eq!(s.baud_rate(), 9600);
    assert_eq!(s.check_start(), Ok(()));
    assert_eq!(s.start(Ok(1)), Ok(()));
    assert_eq!(s.check_start(), Err(SerialError::AlreadyListening));
    assert_eq!(s.start(Ok(2)), Err(SerialError::AlreadyListening));
    assert_eq!(s.stop(), Ok(1));
    assert!(!s.is_running());
    assert_eq!(s.start(Ok(3)), Ok(()));
    assert_eq!(s.stop(), Ok(3));
}

#[test]
fn serial_callback_overwrites() {
    let s: SerialServer<u32, u8> = SerialServer::new("COM1", &115200);
    assert_eq!(s.data_callback(), &None);
    let s = s.on_data(1).on_data(2);
    assert_eq!(s.data_callback(), &Some(2));
}

#[test]
fn serial_error_messages() {
    let s: SerialServer<u32, ()> = SerialServer::new("COM3", &9600);
    assert_eq!(s.error_message(&SerialError::AlreadyListening), "串口: COM3 监听任务已存在");
    assert_eq!(s.error_message(&SerialError::NotListening), "串口: COM3 未连接");
    assert_eq!(s.error_message(&SerialError::OpenError("busy".to_string())), "连接串口 busy 失败");
}

#[test]
fn chunked_reading_delivers_whole_text() {
    let stream = b"10.345";
    let mut joined = String::new();
    let mut calls = 0;
    for chunk in stream.chunks(2) {
        let mut buf = [0u8; 255];
        buf[..chunk.len()].copy_from_slice(chunk);
        if let Some(text) = read_step(&buf, Some(chunk.len())) {
            joined.push_str(&text);
            calls += 1;
        }
    }
    assert_eq!(joined, "10.345");
    assert_eq!(calls, 3);
}

#[test]
fn read_step_uses_only_bytes_read() {
    let buf = [b'4', b'2', b'x', b'y'];
    assert_eq!(read_step(&buf, Some(2)), Some("42".to_string()));
}

#[test]
fn read_loop_ends_on_end_or_error() {
    let buf = [b'1'; 8];
    assert_eq!(read_step(&buf, Some(0)), None);
    assert_eq!(read_step(&buf, None), None);
}

#[test]
fn invalid_bytes_are_replaced() {
    let buf = [b'a', 0xff, b'b'];
    assert_eq!(read_step(&buf, Some(3)), Some("a\u{FFFD}b".to_string()));
}

#[test]
fn read_loop_joins_chunks_and_stays_ended() {
    let mut lp = ReadLoop::new();
    let mut got: Vec<String> = Vec::new();
    for chunk in [&b"10"[..], &b".3"[..], &b"45"[..]] {
        let mut buf = [0u8; 255];
        buf[..chunk.len()].copy_from_slice(chunk);
        if let Some(t) = lp.step(&buf, Some(chunk.len())) {
            got.push(t);
        }
    }
    assert_eq!(got.concat(), "10.345");
    assert_eq!(got.len(), 3);
    assert!(!lp.is_ended());
    let buf = [b'9'; 4];
    assert_eq!(lp.step(&buf, Some(0)), None);
    assert!(lp.is_ended());
    assert_eq!(lp.step(&buf, Some(4)), None);
}
