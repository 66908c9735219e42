use lg::clock::{line_stamp, line_stamp_at, Moment};
use lg::config::Config;
use lg::format::{format_line, header, trailer, Stream};
use lg::host::{hostname, resolve_hostname};
use lg::lines::{event_of, line_of, strip_line_end, Event};
use lg::run::{describe_run, describe_run_at};
use lg::template::RenderContext;

fn context(args: &str) -> RenderContext {
    RenderContext {
        cmd: "echo".to_string(),
        args: args.to_string(),
        date: "2024-01-02".to_string(),
        time: "03-04-05".to_string(),
        ts: "1704164645".to_string(),
        hostname: "box".to_string(),
        cwd: "/tmp".to_string(),
        exit_code: None,
    }
}

#[test]
fn format_line_with_stamp() {
    assert_eq!(
        format_line(Stream::Stdout, "hi", Some("12:00:00.000"), false),
        "[12:00:00.000][STDOUT] hi\n"
    );
    assert_eq!(
        format_line(Stream::Stderr, "oops", Some("23:59:59.999"), false),
        "[23:59:59.999][STDERR] oops\n"
    );
}

#[test]
fn format_line_without_stamp() {
    assert_eq!(format_line(Stream::Stdout, "hi", None, false), "[STDOUT] hi\n");
    assert_eq!(format_line(Stream::Stderr, "oops", None, false), "[STDERR] oops\n");
    assert_eq!(format_line(Stream::Stdout, "", None, false), "[STDOUT] \n");
}

#[test]
fn format_line_plain_has_no_tag_and_no_stamp() {
    assert_eq!(format_line(Stream::Stdout, "hi", None, true), "hi\n");
    assert_eq!(format_line(Stream::Stderr, "hi", Some("12:00:00.000"), true), "hi\n");
    assert_eq!(format_line(Stream::Stderr, "", None, true), "\n");
    assert_eq!(format_line(Stream::Stdout, "[STDERR] x", None, true), "[STDERR] x\n");
}

#[test]
fn header_with_arguments() {
    let env: Vec<(String, String)> = Vec::new();
    assert_eq!(
        header(&context("hi"), &env, false),
        "# lg log\ncmd: echo\nargs: hi\ndate: 2024-01-02 03-04-05\ncwd: /tmp\nhost: box\n----- BEGIN OUTPUT -----\n"
    );
}

#[test]
fn header_without_arguments_has_no_args_line() {
    let env: Vec<(String, String)> = Vec::new();
    assert_eq!(
        header(&context(""), &env, true),
        "# lg log\ncmd: echo\ndate: 2024-01-02 03-04-05\ncwd: /tmp\nhost: box\n----- BEGIN OUTPUT -----\n"
    );
}

#[test]
fn header_records_the_environment_in_the_order_given() {
    let env = vec![
        ("B".to_string(), "2".to_string()),
        ("A".to_string(), "1".to_string()),
        ("EMPTY".to_string(), String::new()),
    ];
    assert_eq!(
        header(&context(""), &env, true),
        "# lg log\ncmd: echo\ndate: 2024-01-02 03-04-05\ncwd: /tmp\nhost: box\nenv[B]=2\nenv[A]=1\nenv[EMPTY]=\n----- BEGIN OUTPUT -----\n"
    );
    assert_eq!(
        header(&context(""), &env, false),
        "# lg log\ncmd: echo\ndate: 2024-01-02 03-04-05\ncwd: /tmp\nhost: box\n----- BEGIN OUTPUT -----\n"
    );
}

#[test]
fn trailer_shows_the_exit_code() {
    assert_eq!(trailer(0), "\n[exit_code] 0\n");
    assert_eq!(trailer(37), "\n[exit_code] 37\n");
    assert_eq!(trailer(1), "\n[exit_code] 1\n");
    assert_eq!(trailer(-1), "\n[exit_code] -1\n");
    assert_eq!(trailer(i32::MAX), "\n[exit_code] 2147483647\n");
    assert_eq!(trailer(i32::MIN), "\n[exit_code] -2147483648\n");
}

#[test]
fn line_end_is_stripped() {
    assert_eq!(strip_line_end(b"hi\n"), b"hi");
    assert_eq!(strip_line_end(b"hi\r\n"), b"hi");
    assert_eq!(strip_line_end(b"hi"), b"hi");
    assert_eq!(strip_line_end(b"hi\r"), b"hi\r");
    assert_eq!(strip_line_end(b"\n"), b"");
    assert_eq!(strip_line_end(b"\r\n"), b"");
    assert_eq!(strip_line_end(b""), b"");
    assert_eq!(strip_line_end(b"a\r\r\n"), b"a\r");
    assert_eq!(strip_line_end(b"a\n\n"), b"a\n");
}

#[test]
fn line_of_decodes_text() {
    assert_eq!(line_of(b"hi\n"), "hi");
    assert_eq!(line_of(b"hi\r\n"), "hi");
    assert_eq!(line_of(b"last line without end"), "last line without end");
    assert_eq!(line_of(b"\n"), "");
    assert_eq!(line_of("gr\u{fc}\u{df}e\n".as_bytes()), "gr\u{fc}\u{df}e");
}

#[test]
fn line_of_replaces_invalid_bytes() {
    assert_eq!(line_of(b"a\xffb\n"), "a\u{fffd}b");
    assert_eq!(line_of(b"\xc3\n"), "\u{fffd}");
    assert_eq!(line_of(b"\xff\xfe"), "\u{fffd}\u{fffd}");
}

#[test]
fn event_of_reads() {
    assert!(matches!(event_of(Stream::Stdout, b""), Event::End { origin: Stream::Stdout }));
    assert!(matches!(event_of(Stream::Stderr, b""), Event::End { origin: Stream::Stderr }));
    match event_of(Stream::Stderr, b"oops\n") {
        Event::Line { origin, text } => {
            assert_eq!(origin, Stream::Stderr);
            assert_eq!(text, "oops");
        }
        Event::End { .. } => panic!("a line was read"),
    }
    match event_of(Stream::Stdout, b"\n") {
        Event::Line { origin, text } => {
            assert_eq!(origin, Stream::Stdout);
            assert_eq!(text, "");
        }
        Event::End { .. } => panic!("an empty line is a line"),
    }
    match event_of(Stream::Stdout, b"tail") {
        Event::Line { text, .. } => assert_eq!(text, "tail"),
        Event::End { .. } => panic!("a last line without line feed is a line"),
    }
}

#[test]
fn line_stamp_of_a_moment() {
    let at = Moment { secs: 0, nanos: 123_456_789, offset: 0 };
    assert_eq!(line_stamp_at(at), Some("00:00:00.123".to_string()));
    let at = Moment { secs: 1704164645, nanos: 7_000_000, offset: 0 };
    assert_eq!(line_stamp_at(at), Some("03:04:05.007".to_string()));
    let at = Moment { secs: 1704164645, nanos: 0, offset: 3600 };
    assert_eq!(line_stamp_at(at), Some("04:04:05.000".to_string()));
    let at = Moment { secs: 1704164645, nanos: 999_999_999, offset: -5 * 3600 };
    assert_eq!(line_stamp_at(at), Some("22:04:05.999".to_string()));
}

#[test]
fn line_stamp_of_an_invalid_moment() {
    assert_eq!(line_stamp_at(Moment { secs: 0, nanos: 0, offset: 86_400 }), None);
    assert_eq!(line_stamp_at(Moment { secs: 0, nanos: 0, offset: -86_400 }), None);
    assert_eq!(line_stamp_at(Moment { secs: i64::MAX, nanos: 0, offset: 0 }), None);
    assert_eq!(line_stamp_at(Moment { secs: 0, nanos: 2_000_000_000, offset: 0 }), None);
}

#[test]
fn line_stamp_now_has_the_shape_of_a_time() {
    let stamp = line_stamp().expect("the clock gives a stamp");
    let chars: Vec<char> = stamp.chars().collect();
    assert_eq!(chars.len(), 12);
    for (i, c) in chars.iter().enumerate() {
        match i {
            2 | 5 => assert_eq!(*c, ':'),
            8 => assert_eq!(*c, '.'),
            _ => assert!(c.is_ascii_digit()),
        }
    }
}

#[test]
fn describe_run_at_a_moment() {
    let cfg = Config::default();
    let args = vec!["-n".to_string(), "hi".to_string()];
    let at = Moment { secs: 1704164645, nanos: 0, offset: 0 };
    let ctx = describe_run_at(at, &cfg, "echo", &args, "/tmp", "box").expect("valid formats");
    assert_eq!(ctx.cmd, "echo");
    assert_eq!(ctx.args, "-n hi");
    assert_eq!(ctx.date, "2024-01-02");
    assert_eq!(ctx.time, "03-04-05");
    assert_eq!(ctx.ts, "1704164645");
    assert_eq!(ctx.hostname, "box");
    assert_eq!(ctx.cwd, "/tmp");
    assert_eq!(ctx.exit_code, None);
}

#[test]
fn describe_run_records_arguments_as_configured() {
    let mut cfg = Config::default();
    cfg.include_full_args = false;
    cfg.date_format = "%d.%m.%Y".to_string();
    cfg.time_format = "%H%M".to_string();
    let args = vec!["-n".to_string(), "hi".to_string()];
    let at = Moment { secs: 1704164645, nanos: 0, offset: 2 * 3600 };
    let ctx = describe_run_at(at, &cfg, "echo", &args, "/tmp", "box").expect("valid formats");
    assert_eq!(ctx.args, "hi");
    assert_eq!(ctx.date, "02.01.2024");
    assert_eq!(ctx.time, "0504");
    assert_eq!(ctx.ts, "1704164645");
}

#[test]
fn describe_run_refuses_an_invalid_format() {
    let args: Vec<String> = Vec::new();
    let at = Moment { secs: 1704164645, nanos: 0, offset: 0 };
    let mut cfg = Config::default();
    cfg.date_format = "%Q".to_string();
    assert!(describe_run_at(at, &cfg, "echo", &args, "/tmp", "box").is_none());
    let mut cfg = Config::default();
    cfg.time_format = "%".to_string();
    assert!(describe_run_at(at, &cfg, "echo", &args, "/tmp", "box").is_none());
    let bad = Moment { secs: 0, nanos: 0, offset: 100_000 };
    assert!(describe_run_at(bad, &Config::default(), "echo", &args, "/tmp", "box").is_none());
}

#[test]
fn describe_run_now() {
    let args = vec!["hi".to_string()];
    let ctx = describe_run(&Config::default(), "echo", &args, "/tmp", "box").expect("valid formats");
    assert_eq!(ctx.cmd, "echo");
    assert_eq!(ctx.args, "hi");
    assert_eq!(ctx.date.len(), 10);
    assert_eq!(ctx.time.len(), 8);
    assert!(ctx.ts.parse::<i64>().expect("seconds in decimal") > 1_600_000_000);
    assert_eq!(ctx.exit_code, None);
}

#[test]
fn hostname_falls_back_to_unknown() {
    assert_eq!(resolve_hostname(None), "unknown");
    assert_eq!(resolve_hostname(Some("box".to_string())), "box");
    assert_eq!(resolve_hostname(Some(String::new())), "");
    assert!(!hostname().is_empty());
}
