use runproject::buffer::{OutputBuffer, MAX_BUFFER_SIZE};
use runproject::registry::Registry;
use runproject::terminal::{
    close_terminal_session, create_terminal_session, get_terminal_buffer, ping_terminal_session,
    reader_step, resize_terminal, shell_command, write_to_terminal, ReadOutcome, ReaderAction,
    SessionRegistry, TerminalConfig, TerminalError, TerminalSession,
};
use runproject::transport::{decode_payload, encode_payload};

fn config(cols: u16, rows: u16) -> TerminalConfig {
    TerminalConfig { cwd: "/tmp".to_string(), cols, rows }
}

fn registry_with(ids: &[&str]) -> SessionRegistry<(), u32> {
    let mut reg: SessionRegistry<(), u32> = Registry::new();
    for (i, id) in ids.iter().enumerate() {
        let session = TerminalSession::new(config(80, 24), (), i as u32 + 100);
        create_terminal_session(&mut reg, id.to_string(), session);
    }
    reg
}

fn data(reg: &mut SessionRegistry<(), u32>, id: &str, bytes: &[u8]) -> ReaderAction {
    reader_step(reg, &id.to_string(), ReadOutcome::Data(bytes.to_vec()))
}

#[test]
fn buffer_keeps_small_appends_in_order() {
    let mut b = OutputBuffer::new();
    b.append(b"abc");
    b.append(b"de");
    assert_eq!(b.snapshot(), b"abcde".to_vec());
    assert_eq!(b.len(), 5);
}

#[test]
fn buffer_evicts_oldest_bytes_at_capacity() {
    let mut b = OutputBuffer::new();
    let full = vec![b'x'; MAX_BUFFER_SIZE];
    b.append(&full);
    assert_eq!(b.len(), MAX_BUFFER_SIZE);
    b.append(b"12345");
    let snap = b.snapshot();
    assert_eq!(snap.len(), MAX_BUFFER_SIZE);
    assert_eq!(&snap[MAX_BUFFER_SIZE - 5..], b"12345");
    assert!(snap[..MAX_BUFFER_SIZE - 5].iter().all(|&c| c == b'x'));
}

#[test]
fn buffer_keeps_tail_of_oversized_chunk() {
    let mut b = OutputBuffer::new();
    b.append(b"old history");
    let mut chunk = vec![b'a'; 10];
    chunk.extend(vec![b'z'; MAX_BUFFER_SIZE]);
    b.append(&chunk);
    let snap = b.snapshot();
    assert_eq!(snap.len(), MAX_BUFFER_SIZE);
    assert!(snap.iter().all(|&c| c == b'z'));
}

#[test]
fn buffer_is_suffix_of_stream_over_many_chunks() {
    let mut b = OutputBuffer::new();
    let mut stream: Vec<u8> = Vec::new();
    for i in 0..5u32 {
        let chunk = vec![(i % 251) as u8; 700_000];
        stream.extend_from_slice(&chunk);
        b.append(&chunk);
        assert!(b.len() <= MAX_BUFFER_SIZE);
    }
    let keep = stream.len().min(MAX_BUFFER_SIZE);
    assert_eq!(b.snapshot(), stream[stream.len() - keep..].to_vec());
}

#[test]
fn base64_round_trip_and_known_values() {
    assert_eq!(encode_payload(b"hi"), "aGk=");
    assert_eq!(encode_payload(b""), "");
    assert_eq!(decode_payload("ZWNobyBoaQo=").unwrap(), b"echo hi\n".to_vec());
    assert!(decode_payload("not base64!").is_err());
}

#[test]
fn new_session_buffer_is_empty() {
    let reg = registry_with(&["s1"]);
    assert_eq!(get_terminal_buffer(&reg, &"s1".to_string()), None);
    assert!(ping_terminal_session(&reg, &"s1".to_string()));
}

#[test]
fn write_decodes_payload_for_known_session() {
    let reg = registry_with(&["s1"]);
    let r = write_to_terminal(&reg, &"s1".to_string(), "ZWNobyBoaQo=");
    assert_eq!(r.ok(), Some(b"echo hi\n".to_vec()));
}

#[test]
fn write_with_invalid_payload_is_rejected() {
    let reg = registry_with(&["s1"]);
    match write_to_terminal(&reg, &"s1".to_string(), "%%%") {
        Err(TerminalError::InvalidPayload { .. }) => {}
        _ => panic!("expected an invalid payload error"),
    }
}

#[test]
fn unknown_session_is_not_found() {
    let mut reg = registry_with(&["s1"]);
    let missing = "nope".to_string();
    match write_to_terminal(&reg, &missing, "aGk=") {
        Err(TerminalError::NotFound { session_id }) => assert_eq!(session_id, "nope"),
        _ => panic!("expected not found"),
    }
    match write_to_terminal(&reg, &missing, "%%%") {
        Err(TerminalError::NotFound { .. }) => {}
        _ => panic!("not found comes before payload checks"),
    }
    match resize_terminal(&mut reg, &missing, 100, 30) {
        Err(TerminalError::NotFound { session_id }) => assert_eq!(session_id, "nope"),
        _ => panic!("expected not found"),
    }
    assert_eq!(get_terminal_buffer(&reg, &missing), None);
    assert!(!ping_terminal_session(&reg, &missing));
}

#[test]
fn error_messages() {
    let e = TerminalError::NotFound { session_id: "s9".to_string() };
    assert_eq!(e.message(), "session not found: s9");
    let e = TerminalError::InvalidPayload { reason: "bad".to_string() };
    assert_eq!(e.message(), "invalid payload: bad");
}

#[test]
fn output_is_published_and_buffered() {
    let mut reg = registry_with(&["s1"]);
    match data(&mut reg, "s1", b"hi\r\n") {
        ReaderAction::Emit { event, payload } => {
            assert_eq!(event, "terminal-output-s1");
            let bytes = decode_payload(&payload).unwrap();
            assert!(String::from_utf8_lossy(&bytes).contains("hi"));
        }
        _ => panic!("expected an output event"),
    }
    let buffered = get_terminal_buffer(&reg, &"s1".to_string()).unwrap();
    assert_eq!(decode_payload(&buffered).unwrap(), b"hi\r\n".to_vec());
}

#[test]
fn end_of_stream_closes_session_once() {
    let mut reg = registry_with(&["s1"]);
    match reader_step(&mut reg, &"s1".to_string(), ReadOutcome::End) {
        ReaderAction::Close { event } => assert_eq!(event, "terminal-closed-s1"),
        _ => panic!("expected the closing event"),
    }
    assert!(!ping_terminal_session(&reg, &"s1".to_string()));
    assert_eq!(close_terminal_session(&mut reg, &"s1".to_string()), None);
}

#[test]
fn failed_read_is_treated_as_end() {
    let mut reg = registry_with(&["s2"]);
    match reader_step(&mut reg, &"s2".to_string(), ReadOutcome::Failed) {
        ReaderAction::Close { event } => assert_eq!(event, "terminal-closed-s2"),
        _ => panic!("expected the closing event"),
    }
    assert!(!ping_terminal_session(&reg, &"s2".to_string()));
}

#[test]
fn output_after_close_is_still_published() {
    let mut reg = registry_with(&[]);
    match data(&mut reg, "gone", b"late") {
        ReaderAction::Emit { event, .. } => assert_eq!(event, "terminal-output-gone"),
        _ => panic!("expected an output event"),
    }
    assert!(!ping_terminal_session(&reg, &"gone".to_string()));
}

#[test]
fn close_is_idempotent() {
    let mut reg = registry_with(&["s1"]);
    let id = "s1".to_string();
    assert_eq!(close_terminal_session(&mut reg, &id), Some(100));
    assert_eq!(close_terminal_session(&mut reg, &id), None);
    assert_eq!(close_terminal_session(&mut reg, &"never".to_string()), None);
    assert!(!ping_terminal_session(&reg, &id));
}

#[test]
fn terminate_hands_out_child_once() {
    let mut s: TerminalSession<(), u32> = TerminalSession::new(config(80, 24), (), 42);
    assert_eq!(s.terminate(), Some(42));
    assert_eq!(s.terminate(), None);
}

#[test]
fn sessions_are_isolated() {
    let mut reg = registry_with(&["a", "b"]);
    data(&mut reg, "a", b"only for a");
    assert_eq!(get_terminal_buffer(&reg, &"b".to_string()), None);
    data(&mut reg, "b", b"bee");
    let a = get_terminal_buffer(&reg, &"a".to_string()).unwrap();
    let b = get_terminal_buffer(&reg, &"b".to_string()).unwrap();
    assert_eq!(decode_payload(&a).unwrap(), b"only for a".to_vec());
    assert_eq!(decode_payload(&b).unwrap(), b"bee".to_vec());
    close_terminal_session(&mut reg, &"a".to_string());
    assert!(ping_terminal_session(&reg, &"b".to_string()));
}

#[test]
fn resize_records_new_size() {
    let mut reg = registry_with(&["s1"]);
    let id = "s1".to_string();
    assert!(resize_terminal(&mut reg, &id, 120, 40).is_ok());
    let s = reg.get(&id).unwrap();
    assert_eq!((s.config.cols, s.config.rows), (120, 40));
    assert_eq!(s.config.cwd, "/tmp");
}

#[test]
fn recreating_an_id_replaces_the_session() {
    let mut reg = registry_with(&["s1"]);
    data(&mut reg, "s1", b"first life");
    let fresh = TerminalSession::new(config(80, 24), (), 7);
    let id = create_terminal_session(&mut reg, "s1".to_string(), fresh);
    assert_eq!(id, "s1");
    assert_eq!(get_terminal_buffer(&reg, &id), None);
    assert_eq!(close_terminal_session(&mut reg, &id), Some(7));
}

#[test]
fn shell_command_sets_terminal_environment() {
    let c = shell_command(&config(80, 24));
    assert_eq!(c.program, "zsh");
    assert_eq!(c.cwd, "/tmp");
    let env: Vec<(&str, &str)> = c.env.iter().map(|(k, v)| (k.as_str(), v.as_str())).collect();
    assert_eq!(
        env,
        vec![("TERM", "xterm-256color"), ("COLORTERM", "truecolor"), ("LANG", "en_US.UTF-8")]
    );
}
