use telnet_pty::{
    decimal_string, new_session_id, Bridge, BridgeEvent, IoStage, LaunchPlan, ReadOutcome,
    SessionError, SessionRegistry, DEFAULT_COLS, DEFAULT_PORT, DEFAULT_ROWS, READ_CHUNK,
    SESSION_ID_LEN, TELNET_PROGRAM,
};

fn data_of(ev: &BridgeEvent) -> (String, String) {
    match ev {
        BridgeEvent::Data { id, data } => (id.clone(), data.clone()),
        BridgeEvent::Exit { .. } => panic!("expected a data event"),
    }
}

fn chunk(bytes: &[u8]) -> Vec<u8> {
    let mut buf = vec![0u8; READ_CHUNK];
    buf[..bytes.len()].copy_from_slice(bytes);
    buf
}

#[test]
fn launch_plan_uses_defaults() {
    let plan = LaunchPlan::new("example.com", None, Some(80), Some(24));
    assert_eq!(plan.program, "telnet");
    assert_eq!(plan.program, TELNET_PROGRAM);
    assert_eq!(plan.args, vec!["example.com".to_string(), "23".to_string()]);
    assert_eq!((plan.cols, plan.rows), (80, 24));
    let bare = LaunchPlan::new("h", None, None, None);
    assert_eq!(bare.args[1], DEFAULT_PORT.to_string());
    assert_eq!((bare.cols, bare.rows), (DEFAULT_COLS, DEFAULT_ROWS));
    assert_eq!((bare.cols, bare.rows), (80, 24));
}

#[test]
fn launch_plan_takes_explicit_values() {
    let plan = LaunchPlan::new("bbs.example.org", Some(2323), Some(132), Some(43));
    assert_eq!(plan.args, vec!["bbs.example.org".to_string(), "2323".to_string()]);
    assert_eq!((plan.cols, plan.rows), (132, 43));
}

#[test]
fn decimal_text_of_ports() {
    assert_eq!(decimal_string(0), "0");
    assert_eq!(decimal_string(7), "7");
    assert_eq!(decimal_string(10), "10");
    assert_eq!(decimal_string(23), "23");
    assert_eq!(decimal_string(65535), "65535");
    for n in [1u16, 99, 100, 999, 1000, 40000] {
        assert_eq!(decimal_string(n), n.to_string());
    }
}

#[test]
fn session_ids_are_url_safe_and_fresh() {
    let a = new_session_id();
    let b = new_session_id();
    assert_eq!(a.chars().count(), SESSION_ID_LEN);
    assert_eq!(a.len(), 21);
    assert!(a.chars().all(|c| c.is_ascii_alphanumeric() || c == '_' || c == '-'));
    assert_ne!(a, b);
}

#[test]
fn registry_insert_get_remove() {
    let mut reg: SessionRegistry<u32> = SessionRegistry::new();
    assert_eq!(reg.len(), 0);
    assert!(reg.insert("a".to_string(), 1).is_none());
    assert!(reg.insert("b".to_string(), 2).is_none());
    assert_eq!(reg.len(), 2);
    assert_eq!(*reg.get("a").unwrap(), 1);
    *reg.get_mut("b").unwrap() = 20;
    assert_eq!(*reg.get("b").unwrap(), 20);
    assert_eq!(reg.insert("a".to_string(), 10), Some(1));
    assert_eq!(reg.len(), 2);
    assert_eq!(reg.remove("a"), Some(10));
    assert!(!reg.contains("a"));
    assert!(reg.contains("b"));
    assert_eq!(reg.len(), 1);
}

#[test]
fn unknown_id_is_not_found_and_kill_is_idempotent() {
    let mut reg: SessionRegistry<u32> = SessionRegistry::new();
    reg.insert("live".to_string(), 5);
    assert!(matches!(reg.get_mut("ghost"), Err(SessionError::NotFound)));
    assert!(matches!(reg.get("ghost"), Err(SessionError::NotFound)));
    assert_eq!(reg.remove("ghost"), None);
    assert_eq!(reg.remove("ghost"), None);
    assert_eq!(reg.len(), 1);
    assert_eq!(*reg.get("live").unwrap(), 5);
}

#[test]
fn start_kill_then_write_is_not_found() {
    let plan = LaunchPlan::new("example.com", None, Some(80), Some(24));
    assert_eq!(plan.args[1], "23");
    let mut reg: SessionRegistry<LaunchPlan> = SessionRegistry::new();
    let id = reg.register(plan);
    assert_eq!(id.chars().count(), SESSION_ID_LEN);
    assert!(reg.contains(&id));
    assert!(reg.remove(&id).is_some());
    let e = reg.get_mut(&id).err().unwrap();
    assert!(e.is_not_found());
    assert_eq!(e.message(), "pty not found");
    assert!(reg.remove(&id).is_none());
}

#[test]
fn natural_exit_emits_data_then_exit_and_keeps_entry() {
    let mut reg: SessionRegistry<u8> = SessionRegistry::new();
    let id = reg.register(0);
    let mut bridge = Bridge::new(id.clone());
    let text = b"Trying 127.0.0.1...\r\ntelnet: Unable to connect to remote host: Connection refused\r\n";
    let buf = chunk(text);
    let first = bridge.on_read(ReadOutcome::Bytes(text.len()), &buf).unwrap();
    let (eid, data) = data_of(&first);
    assert_eq!(eid, id);
    assert!(data.contains("Connection refused"));
    let second = bridge.on_read(ReadOutcome::Bytes(0), &buf).unwrap();
    assert!(second.is_exit());
    assert_eq!(second.id(), &id);
    assert!(!bridge.is_open());
    assert!(reg.contains(&id));
}

#[test]
fn exit_comes_once_and_last() {
    let mut bridge = Bridge::new("s".to_string());
    let buf = chunk(b"abc");
    let mut events = Vec::new();
    let outcomes = [
        ReadOutcome::Bytes(3),
        ReadOutcome::Bytes(1),
        ReadOutcome::Failed,
        ReadOutcome::Bytes(3),
        ReadOutcome::Bytes(0),
        ReadOutcome::Failed,
    ];
    for o in outcomes {
        if let Some(ev) = bridge.on_read(o, &buf) {
            events.push(ev);
        }
    }
    assert_eq!(events.len(), 3);
    assert_eq!(data_of(&events[0]).1, "abc");
    assert_eq!(data_of(&events[1]).1, "a");
    assert!(events[2].is_exit());
    assert_eq!(events.iter().filter(|e| e.is_exit()).count(), 1);
    assert!(events.iter().all(|e| e.id() == "s"));
}

#[test]
fn zero_byte_read_ends_the_stream() {
    let mut bridge = Bridge::new("z".to_string());
    let ev = bridge.on_read(ReadOutcome::Bytes(0), &[]).unwrap();
    assert!(ev.is_exit());
    assert!(bridge.on_read(ReadOutcome::Bytes(0), &[]).is_none());
    assert!(bridge.on_text(Some("late".to_string())).is_none());
}

#[test]
fn read_failure_ends_the_stream() {
    let mut bridge = Bridge::new("f".to_string());
    assert!(bridge.on_read(ReadOutcome::Failed, &[]).unwrap().is_exit());
    assert!(!bridge.is_open());
    assert_eq!(bridge.session_id(), "f");
}

#[test]
fn invalid_utf8_is_replaced_not_fatal() {
    let mut bridge = Bridge::new("u".to_string());
    let buf = chunk(&[b'h', b'i', 0xff, 0xfe, b'!']);
    let ev = bridge.on_read(ReadOutcome::Bytes(5), &buf).unwrap();
    assert_eq!(data_of(&ev).1, "hi\u{FFFD}\u{FFFD}!");
    assert!(bridge.is_open());
    let utf = "héllo".as_bytes();
    let ev = bridge.on_read(ReadOutcome::Bytes(utf.len()), &chunk(utf)).unwrap();
    assert_eq!(data_of(&ev).1, "héllo");
}

#[test]
fn only_the_bytes_read_are_decoded() {
    let mut bridge = Bridge::new("n".to_string());
    let buf = chunk(b"hello world");
    let ev = bridge.on_read(ReadOutcome::Bytes(5), &buf).unwrap();
    assert_eq!(data_of(&ev).1, "hello");
}

#[test]
fn resizes_between_reads_leave_events_unchanged() {
    let mut reg: SessionRegistry<(u16, u16)> = SessionRegistry::new();
    let id = reg.register((80, 24));
    let mut bridge = Bridge::new(id.clone());
    let buf = chunk(b"xyz");
    let mut events = Vec::new();
    for (i, size) in [(100u16, 30u16), (120, 40), (90, 20)].into_iter().enumerate() {
        *reg.get_mut(&id).unwrap() = size;
        events.push(bridge.on_read(ReadOutcome::Bytes(i + 1), &buf).unwrap());
    }
    events.push(bridge.on_read(ReadOutcome::Bytes(0), &buf).unwrap());
    let texts: Vec<String> = events[..3].iter().map(|e| data_of(e).1).collect();
    assert_eq!(texts, vec!["x", "xy", "xyz"]);
    assert!(events[3].is_exit());
    assert_eq!(*reg.get(&id).unwrap(), (90, 20));
}

#[test]
fn error_messages() {
    assert_eq!(SessionError::AllocationFailure("no ptys".to_string()).message(), "openpty: no ptys");
    assert_eq!(SessionError::SpawnFailure("not found".to_string()).message(), "spawn telnet: not found");
    assert_eq!(SessionError::NotFound.message(), "pty not found");
    assert_eq!(SessionError::LockFailure.message(), "lock ptys");
    assert_eq!(SessionError::IoError(IoStage::Reader, "x".to_string()).message(), "reader: x");
    assert_eq!(SessionError::IoError(IoStage::Writer, "x".to_string()).message(), "writer: x");
    assert_eq!(SessionError::IoError(IoStage::Write, "broken pipe".to_string()).message(), "write: broken pipe");
    assert_eq!(SessionError::IoError(IoStage::Resize, "bad fd".to_string()).message(), "resize: bad fd");
    assert!(!SessionError::LockFailure.is_not_found());
}

#[test]
fn decoded_text_becomes_data_until_the_end() {
    let mut bridge = Bridge::new("t".to_string());
    let ev = bridge.on_text(Some("login: ".to_string())).unwrap();
    assert_eq!(data_of(&ev), ("t".to_string(), "login: ".to_string()));
    let end = bridge.on_text(None).unwrap();
    assert!(end.is_exit());
    assert!(bridge.on_text(None).is_none());
}
