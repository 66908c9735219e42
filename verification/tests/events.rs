use lg::config::{Compress, Config};
use lg::format::Stream;
use lg::lines::event_of;
use lg::session::{LogError, Phase, Remainder, Session};
use lg::template::RenderContext;

fn context() -> RenderContext {
    RenderContext {
        cmd: "sh".to_string(),
        args: String::new(),
        date: "2024-01-02".to_string(),
        time: "03-04-05".to_string(),
        ts: "1704164645".to_string(),
        hostname: "box".to_string(),
        cwd: "/".to_string(),
        exit_code: None,
    }
}

fn untimed(split: bool) -> Config {
    let mut cfg = Config::default();
    cfg.timestamp_each_line = false;
    cfg.split_streams = split;
    cfg.combine_streams = !split;
    cfg.compress = Compress::Off;
    cfg
}

const HEADER: &str =
    "# lg log\ncmd: sh\ndate: 2024-01-02 03-04-05\ncwd: /\nhost: box\n----- BEGIN OUTPUT -----\n";

#[test]
fn reads_from_the_pipes_become_lines_and_ends() {
    let env: Vec<(String, String)> = Vec::new();
    let mut s = Session::begin(&untimed(false), &context(), &env).unwrap();
    let reads: [(Stream, &[u8]); 8] = [
        (Stream::Stdout, b"first\n"),
        (Stream::Stderr, b"problem\r\n"),
        (Stream::Stdout, b"\n"),
        (Stream::Stderr, b"bad \xff byte\n"),
        (Stream::Stderr, b""),
        (Stream::Stdout, b"no line feed at the end"),
        (Stream::Stdout, b""),
        (Stream::Stdout, b"after the end\n"),
    ];
    let mut results = Vec::new();
    for (origin, raw) in reads {
        results.push(s.handle(&event_of(origin, raw)));
    }
    assert_eq!(
        results,
        vec![
            Ok(true),
            Ok(true),
            Ok(true),
            Ok(true),
            Ok(false),
            Ok(true),
            Ok(false),
            Err(LogError::StreamClosed),
        ]
    );
    assert!(s.drained());
    assert_eq!(s.finish(Some(0)), Ok(0));
    let mut log = s.take_output(Stream::Stdout);
    match s.close().unwrap() {
        Remainder::Combined { log: rest } => log.extend(rest),
        Remainder::Split { .. } => panic!("one log was asked for"),
    }
    assert_eq!(
        String::from_utf8(log).unwrap(),
        format!(
            "{}[STDOUT] first\n[STDERR] problem\n[STDOUT] \n[STDERR] bad \u{fffd} byte\n[STDOUT] no line feed at the end\n\n[exit_code] 0\n",
            HEADER
        )
    );
}

#[test]
fn an_end_is_not_mirrored() {
    let env: Vec<(String, String)> = Vec::new();
    let mut s = Session::begin(&untimed(true), &context(), &env).unwrap();
    assert_eq!(s.handle(&event_of(Stream::Stderr, b"")), Ok(false));
    assert_eq!(s.handle(&event_of(Stream::Stderr, b"")), Err(LogError::StreamClosed));
    assert_eq!(s.handle(&event_of(Stream::Stderr, b"x\n")), Err(LogError::StreamClosed));
    assert_eq!(s.handle(&event_of(Stream::Stdout, b"x\n")), Ok(true));
    assert_eq!(s.state(), Phase::Draining);
    assert_eq!(String::from_utf8(s.take_output(Stream::Stderr)).unwrap(), HEADER);
    assert_eq!(
        String::from_utf8(s.take_output(Stream::Stdout)).unwrap(),
        format!("{}[STDOUT] x\n", HEADER)
    );
}

#[test]
fn a_session_without_stamps_does_not_read_the_clock() {
    let env: Vec<(String, String)> = Vec::new();
    let mut cfg = untimed(false);
    let s = Session::begin(&cfg, &context(), &env).unwrap();
    assert!(!s.stamps_lines());
    cfg.timestamp_each_line = true;
    let s = Session::begin(&cfg, &context(), &env).unwrap();
    assert!(s.stamps_lines());
    cfg.plain_lines = true;
    let mut s = Session::begin(&cfg, &context(), &env).unwrap();
    assert!(!s.stamps_lines());
    assert_eq!(s.line(Stream::Stdout, "raw"), Ok(true));
    s.take_output(Stream::Stdout);
    assert_eq!(s.line_at(Stream::Stderr, "text", "ignored"), Ok(true));
    assert_eq!(String::from_utf8(s.take_output(Stream::Stdout)).unwrap(), "text\n");
}

#[test]
fn errors_say_what_went_wrong() {
    assert_eq!(LogError::Failed.message(), "a log could not be written earlier in this run");
    assert_eq!(LogError::Finished.message(), "the run is finished");
    assert_eq!(LogError::StreamClosed.message(), "the stream has ended");
    assert_eq!(LogError::StillOpen.message(), "a stream has not ended yet");
    assert_eq!(LogError::Write.message(), "a log could not be written");
    assert_eq!(LogError::Clock.message(), "the clock gave no time stamp");
}
