use msb_cloud_adapter::error::HttpStatus;
use msb_cloud_adapter::logs::{
    log_source_name, log_stream_options, parse_log_sources, payload_of, unsupported_source, LogAction, LogEntry,
    LogPhase, LogPoll, LogSource, LogStream,
};
use msb_cloud_adapter::time::Timestamp;

const AT: Timestamp = Timestamp { secs: 10, nanos: 20 };

fn entry(data: &[u8]) -> LogPoll {
    LogPoll::Entry(LogEntry { source: LogSource::Stderr, timestamp: AT, data: data.to_vec() })
}

#[test]
fn no_sources_ask_for_none() {
    assert!(parse_log_sources(None).unwrap().is_empty());
    assert!(parse_log_sources(Some("")).unwrap().is_empty());
    assert!(parse_log_sources(Some(",,")).unwrap().is_empty());
}

#[test]
fn sources_are_read_in_order() {
    assert_eq!(
        parse_log_sources(Some("stdout,stderr,output,system")).unwrap(),
        vec![LogSource::Stdout, LogSource::Stderr, LogSource::Output, LogSource::System],
    );
    assert_eq!(
        parse_log_sources(Some(",system,,stdout,stdout,")).unwrap(),
        vec![LogSource::System, LogSource::Stdout, LogSource::Stdout],
    );
}

#[test]
fn source_lists_round_trip() {
    let sources = vec![LogSource::Output, LogSource::Stderr, LogSource::Stdout, LogSource::System];
    let names: Vec<&str> = sources.iter().map(|source| log_source_name(*source)).collect();
    assert_eq!(names, vec!["output", "stderr", "stdout", "system"]);
    assert_eq!(parse_log_sources(Some(&names.join(","))).unwrap(), sources);
}

#[test]
fn unknown_source_is_refused_by_its_quoted_name() {
    let refusal = parse_log_sources(Some("stdout,St\"x\n,other")).unwrap_err();
    assert_eq!(refusal.status, HttpStatus::BadRequest);
    assert_eq!(refusal.code, "invalid_log_source");
    assert_eq!(refusal.message, "unsupported log source \"St\\\"x\\n\"");
    let space = parse_log_sources(Some("stdout, stderr")).unwrap_err();
    assert_eq!(space.message, "unsupported log source \" stderr\"");
    assert_eq!(unsupported_source("<x>").message, "unsupported log source <x>");
}

#[test]
fn streamed_log_is_followed() {
    let options = log_stream_options(vec![LogSource::System, LogSource::Stdout]);
    assert!(options.follow);
    assert_eq!(options.sources, vec![LogSource::System, LogSource::Stdout]);
}

#[test]
fn payload_names_its_source() {
    let payload = payload_of(LogSource::Output, AT, "hi".to_string());
    assert_eq!(payload.source, "output");
    assert_eq!(payload.ts, AT);
    assert_eq!(payload.text, "hi");
}

#[test]
fn entry_text_is_decoded() {
    let cases: [(&[u8], &str); 4] = [
        (b"plain", "plain"),
        (b"h\xc3\xa9", "h\u{e9}"),
        (b"a\xffb", "a\u{fffd}b"),
        (b"\xe2\x82", "\u{fffd}"),
    ];
    for (data, text) in cases {
        let mut stream = LogStream::start();
        match stream.poll(entry(data)) {
            LogAction::Render(payload) => {
                assert_eq!(payload.source, "stderr");
                assert_eq!(payload.ts, AT);
                assert_eq!(payload.text, text);
            }
            LogAction::Send(_) => panic!("an entry is not sent as it is"),
        }
    }
}

#[test]
fn stream_numbers_its_events_and_ends_once() {
    let mut stream = LogStream::start();
    assert!(!stream.is_done());
    assert!(matches!(stream.poll(entry(b"x")), LogAction::Render(_)));
    let first = stream.rendered::<()>(Ok("one".to_string())).unwrap();
    assert_eq!((first.event, first.id, first.data.as_str()), (None, Some(0), "one"));

    assert!(matches!(stream.poll(entry(b"y")), LogAction::Render(_)));
    assert_eq!(stream.rendered::<u8>(Err(7)).unwrap_err(), 7);

    let now = Timestamp { secs: 99, nanos: 1 };
    match stream.poll_at(LogPoll::Failed("broken".to_string()), now) {
        LogAction::Render(payload) => {
            assert_eq!(payload.source, "system");
            assert_eq!(payload.ts, now);
            assert_eq!(payload.text, "broken");
        }
        LogAction::Send(_) => panic!("a failure is not sent as it is"),
    }
    let third = stream.rendered::<()>(Ok("three".to_string())).unwrap();
    assert_eq!((third.event, third.id, third.data.as_str()), (Some("error"), Some(2), "three"));

    match stream.poll(LogPoll::Ended) {
        LogAction::Send(end) => {
            assert_eq!((end.event, end.id, end.data.as_str()), (Some("end"), None, "{}"));
        }
        LogAction::Render(_) => panic!("the end has no payload"),
    }
    assert!(stream.is_done());
    assert_eq!(stream, LogStream { seq: 4, phase: LogPhase::Done });
}

#[test]
fn failure_is_dated_by_the_present() {
    let before = chrono::Utc::now().timestamp();
    let mut stream = LogStream::start();
    match stream.poll(LogPoll::Failed("broken".to_string())) {
        LogAction::Render(payload) => {
            assert!(payload.ts.secs >= before && payload.ts.nanos < 1_000_000_000);
        }
        LogAction::Send(_) => panic!("a failure is not sent as it is"),
    }
}
