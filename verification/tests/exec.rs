use msb_cloud_adapter::backend::SandboxStatus;
use msb_cloud_adapter::exec::{
    after_decode, after_frame, check_exec_request, exec_attach, plan_exec, stream_ended_failure,
    write_failure, Attach, ClientMessage, ExecEvent, ExecFailureKind, ExecReply, ExecRequest,
    ExecRlimit, ExecSession, MessageKind, MessageType, ReadAction, SessionAction, SessionEvent, SocketFrame,
};
use msb_cloud_adapter::runtime::{
    configure_sdk_runtime_paths, healthz, runtime_home_candidate, Candidate, RuntimeHome,
};

fn client(message: ClientMessage) -> SessionEvent<&'static str> {
    SessionEvent::Client(Some(message))
}

fn guest(event: ExecEvent<&'static str>) -> SessionEvent<&'static str> {
    SessionEvent::Guest(Some(event))
}

#[test]
fn decoded_message_is_delivered_before_reading_on() {
    assert!(matches!(after_decode(Some(5)), ReadAction::Deliver(Some(5))));
    assert!(matches!(after_decode::<u8>(None), ReadAction::Receive));
}

#[test]
fn binary_frames_fill_the_buffer() {
    let mut buffer = vec![1, 2];
    let action: ReadAction<u8> =
        after_frame(&mut buffer, Some(Ok(SocketFrame::Binary(vec![3, 4]))));
    assert!(matches!(action, ReadAction::Decode));
    let action: ReadAction<u8> = after_frame(&mut buffer, Some(Ok(SocketFrame::Other)));
    assert!(matches!(action, ReadAction::Decode));
    let action: ReadAction<u8> = after_frame(&mut buffer, Some(Ok(SocketFrame::Binary(vec![5]))));
    assert!(matches!(action, ReadAction::Decode));
    assert_eq!(buffer, vec![1, 2, 3, 4, 5]);
}

#[test]
fn closed_socket_ends_the_messages() {
    let mut buffer = vec![1];
    let action: ReadAction<u8> = after_frame(&mut buffer, Some(Ok(SocketFrame::Close)));
    assert!(matches!(action, ReadAction::Deliver(None)));
    let action: ReadAction<u8> = after_frame(&mut buffer, None);
    assert!(matches!(action, ReadAction::Deliver(None)));
    assert_eq!(buffer, vec![1]);
}

fn decode(buffer: &mut Vec<u8>) -> Option<Vec<u8>> {
    let size = usize::from(*buffer.first()?);
    if buffer.len() <= size {
        return None;
    }
    let rest = buffer.split_off(size + 1);
    let message = buffer[1..].to_vec();
    *buffer = rest;
    Some(message)
}

fn read(
    buffer: &mut Vec<u8>,
    frames: &mut std::vec::IntoIter<SocketFrame>,
) -> Option<Vec<u8>> {
    let mut action = ReadAction::Decode;
    loop {
        action = match action {
            ReadAction::Decode => after_decode(decode(buffer)),
            ReadAction::Receive => after_frame(buffer, frames.next().map(Ok)),
            ReadAction::Deliver(message) => return message,
            ReadAction::Fail(message) => panic!("{message}"),
        };
    }
}

#[test]
fn messages_come_out_in_order_however_they_are_cut() {
    let messages = [vec![1, 2, 3], vec![], vec![4], vec![5; 40]];
    let mut bytes: Vec<u8> = Vec::new();
    for message in &messages {
        bytes.push(message.len() as u8);
        bytes.extend(message);
    }
    for cut in 1..bytes.len() + 1 {
        for unfinished in [vec![], vec![9, 9]] {
            let mut all = bytes.clone();
            all.extend(&unfinished);
            let mut frames: Vec<SocketFrame> = Vec::new();
            for part in all.chunks(cut) {
                frames.push(SocketFrame::Binary(part.to_vec()));
                frames.push(SocketFrame::Other);
                frames.push(SocketFrame::Binary(vec![]));
            }
            frames.push(SocketFrame::Close);
            frames.push(SocketFrame::Binary(vec![1, 7]));
            let mut frames = frames.into_iter();
            let mut buffer: Vec<u8> = Vec::new();
            for message in &messages {
                assert_eq!(read(&mut buffer, &mut frames).as_ref(), Some(message));
            }
            assert_eq!(read(&mut buffer, &mut frames), None);
        }
    }
}

#[test]
fn socket_failures_are_told() {
    let mut buffer = Vec::new();
    match after_frame::<u8>(&mut buffer, Some(Err("reset".to_string()))) {
        ReadAction::Fail(message) => assert_eq!(message, "websocket read failed: reset"),
        other => panic!("{other:?}"),
    }
    assert_eq!(write_failure("reset"), "websocket write failed: reset");
}

#[test]
fn session_starts_with_a_request() {
    let of = |kind| MessageType { kind, label: "ExecStdin".to_string() };
    assert_eq!(check_exec_request(Some(&of(MessageKind::ExecRequest))), Ok(()));
    assert_eq!(
        check_exec_request(None),
        Err("cloud exec websocket closed before ExecRequest".to_string()),
    );
    for kind in [
        MessageKind::ExecStdin,
        MessageKind::ExecResize,
        MessageKind::ExecSignal,
        MessageKind::Other,
    ] {
        assert_eq!(
            check_exec_request(Some(&of(kind))),
            Err("expected ExecRequest, got ExecStdin".to_string()),
        );
    }
}

#[test]
fn sandbox_that_is_not_live_is_started() {
    for (status, attach) in [
        (SandboxStatus::Created, Attach::Start),
        (SandboxStatus::Starting, Attach::Start),
        (SandboxStatus::Running, Attach::Connect),
        (SandboxStatus::Draining, Attach::Connect),
        (SandboxStatus::Paused, Attach::Start),
        (SandboxStatus::Stopped, Attach::Start),
        (SandboxStatus::Crashed, Attach::Start),
    ] {
        assert_eq!(exec_attach(status), attach);
    }
}

#[test]
fn request_becomes_a_plan() {
    let limit = |resource: &str, known, soft, hard| ExecRlimit {
        resource: resource.to_string(),
        known,
        soft,
        hard,
    };
    let plan = plan_exec(ExecRequest {
        cmd: "sh".to_string(),
        args: vec!["-c".to_string(), "true".to_string()],
        env: ["A=1", "B", "C=x=y", "=z", "D=", "A=2"].iter().map(|s| s.to_string()).collect(),
        cwd: Some("/".to_string()),
        user: None,
        tty: true,
        rows: 24,
        cols: 80,
        rlimits: vec![
            limit("nofile", true, 1, 2),
            limit("bogus", false, 3, 4),
            limit("cpu", true, 5, 6),
        ],
    });
    assert_eq!(plan.cmd, "sh");
    assert_eq!(plan.args, vec!["-c".to_string(), "true".to_string()]);
    let env: Vec<(&str, &str)> = plan.env.iter().map(|(k, v)| (k.as_str(), v.as_str())).collect();
    assert_eq!(env, vec![("A", "1"), ("C", "x=y"), ("", "z"), ("D", ""), ("A", "2")]);
    assert_eq!(plan.cwd.as_deref(), Some("/"));
    assert_eq!(plan.user, None);
    assert!(plan.tty);
    assert!(plan.stdin_pipe);
    let limits: Vec<(&str, u64, u64)> =
        plan.rlimits.iter().map(|l| (l.resource.as_str(), l.soft, l.hard)).collect();
    assert_eq!(limits, vec![("nofile", 1, 2), ("cpu", 5, 6)]);
}

#[test]
fn input_is_written_until_it_is_closed() {
    let mut session = ExecSession::start(true);
    match session.step(client(ClientMessage::Stdin(vec![1, 2]))) {
        SessionAction::WriteStdin(data) => assert_eq!(data, vec![1, 2]),
        other => panic!("{other:?}"),
    }
    let action = session.step(client(ClientMessage::Stdin(vec![])));
    assert!(matches!(action, SessionAction::CloseStdin));
    let action = session.step(client(ClientMessage::Stdin(vec![])));
    assert!(matches!(action, SessionAction::Nothing));
    let action = session.step(client(ClientMessage::Stdin(vec![3])));
    assert!(matches!(action, SessionAction::Nothing));
    let action = session.step(SessionEvent::<&str>::Client(None));
    assert!(matches!(action, SessionAction::HangUp { close_stdin: false }));
    assert_eq!(session, ExecSession { stdin_open: false, ended: true });
}

#[test]
fn client_that_leaves_closes_the_input() {
    let mut session = ExecSession::start(true);
    let action = session.step(SessionEvent::<&str>::Client(None));
    assert!(matches!(action, SessionAction::HangUp { close_stdin: true }));
    assert!(session.ended);
    let mut without = ExecSession::start(false);
    let action = without.step(client(ClientMessage::Stdin(vec![1])));
    assert!(matches!(action, SessionAction::Nothing));
    let action = without.step(SessionEvent::<&str>::Client(None));
    assert!(matches!(action, SessionAction::HangUp { close_stdin: false }));
}

#[test]
fn control_messages_reach_the_command() {
    let mut session = ExecSession::start(true);
    let action = session.step(client(ClientMessage::Resize { rows: 3, cols: 4 }));
    assert!(matches!(action, SessionAction::Resize { rows: 3, cols: 4 }));
    let action = session.step(client(ClientMessage::Signal(15)));
    assert!(matches!(action, SessionAction::Signal(15)));
    let action = session.step(client(ClientMessage::Other));
    assert!(matches!(action, SessionAction::Nothing));
    assert_eq!(session, ExecSession { stdin_open: true, ended: false });
}

#[test]
fn reports_are_sent_until_the_last() {
    let mut session = ExecSession::start(true);
    let action = session.step(guest(ExecEvent::Started { pid: 9 }));
    assert!(matches!(action, SessionAction::Reply(ExecReply::Started { pid: 9 })));
    match session.step(guest(ExecEvent::Stdout(vec![1]))) {
        SessionAction::Reply(ExecReply::Stdout(data)) => assert_eq!(data, vec![1]),
        other => panic!("{other:?}"),
    }
    match session.step(guest(ExecEvent::Stderr(vec![2]))) {
        SessionAction::Reply(ExecReply::Stderr(data)) => assert_eq!(data, vec![2]),
        other => panic!("{other:?}"),
    }
    let action = session.step(guest(ExecEvent::StdinError));
    assert!(matches!(action, SessionAction::Nothing));
    assert!(!session.ended);
    let action = session.step(guest(ExecEvent::Exited { code: -1 }));
    assert!(matches!(action, SessionAction::LastReply(ExecReply::Exited { code: -1 })));
    assert!(session.ended);
}

#[test]
fn failed_and_broken_commands_end_the_session() {
    let mut session = ExecSession::start(true);
    let action = session.step(guest(ExecEvent::Failed("no such file")));
    assert!(matches!(action, SessionAction::LastReply(ExecReply::Failed("no such file"))));
    assert!(session.ended);
    let mut session = ExecSession::start(true);
    let action = session.step(SessionEvent::<&str>::Guest(None));
    let failure = match action {
        SessionAction::LastReply(ExecReply::StreamEnded(failure)) => failure,
        other => panic!("{other:?}"),
    };
    assert!(session.ended);
    for failure in [failure, stream_ended_failure()] {
        assert_eq!(failure.kind, ExecFailureKind::Other);
        assert_eq!(failure.errno, None);
        assert_eq!(failure.errno_name, None);
        assert_eq!(failure.message, "local exec stream ended without exit event");
        assert_eq!(failure.stage, Some("cloud-adapter"));
    }
}

#[test]
fn runtime_home_prefers_the_named_directory() {
    assert_eq!(
        runtime_home_candidate(Some("/msb"), Some("/home/u")),
        Some(RuntimeHome::Named("/msb")),
    );
    assert_eq!(
        runtime_home_candidate(None, Some("/home/u")),
        Some(RuntimeHome::InUserHome { home: "/home/u", dir: ".microsandbox" }),
    );
    assert_eq!(runtime_home_candidate::<&str>(None, None), None);
}

#[test]
fn only_files_are_configured() {
    let candidate = |path, is_file| Candidate { path, is_file };
    let paths = configure_sdk_runtime_paths(Some((candidate("msb", true), candidate("lib", false))));
    assert_eq!((paths.msb, paths.libkrunfw), (Some("msb"), None));
    let paths = configure_sdk_runtime_paths(Some((candidate("msb", false), candidate("lib", true))));
    assert_eq!((paths.msb, paths.libkrunfw), (None, Some("lib")));
    let paths = configure_sdk_runtime_paths::<&str>(None);
    assert_eq!((paths.msb, paths.libkrunfw), (None, None));
}

#[test]
fn health_check_is_answered() {
    assert!(healthz().ok);
}

#[test]
fn reports_are_passed_on_whatever_the_client_does() {
    let mut session = ExecSession::start(true);
    let events = vec![
        guest(ExecEvent::Started { pid: 1 }),
        client(ClientMessage::Stdin(vec![7])),
        guest(ExecEvent::Stdout(vec![1])),
        client(ClientMessage::Stdin(vec![])),
        client(ClientMessage::Stdin(vec![8])),
        guest(ExecEvent::Stdout(vec![2])),
        client(ClientMessage::Signal(9)),
        guest(ExecEvent::Exited { code: 137 }),
    ];
    let mut written: Vec<u8> = Vec::new();
    let mut output: Vec<u8> = Vec::new();
    let mut closed = 0;
    let mut last = None;
    for event in events {
        assert!(!session.ended);
        match session.step(event) {
            SessionAction::WriteStdin(data) => written.extend(data),
            SessionAction::CloseStdin => closed += 1,
            SessionAction::Reply(ExecReply::Stdout(data)) => output.extend(data),
            SessionAction::LastReply(ExecReply::Exited { code }) => last = Some(code),
            _ => {}
        }
    }
    assert!(session.ended);
    assert_eq!(written, vec![7]);
    assert_eq!(closed, 1);
    assert_eq!(output, vec![1, 2]);
    assert_eq!(last, Some(137));
}
