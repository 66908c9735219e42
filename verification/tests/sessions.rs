use flate2::read::GzDecoder;
use lg::config::{Compress, Config};
use lg::format::Stream;
use lg::session::{
    exit_code, open_writer, write_header, write_line, write_line_at, write_trailer, LogError,
    Pending, Phase, Remainder, Session,
};
use lg::sink::Sink;
use lg::template::RenderContext;
use std::io::Read;

const HEADER: &str =
    "# lg log\ncmd: echo\nargs: hi\ndate: 2024-01-02 03-04-05\ncwd: /tmp\nhost: box\n----- BEGIN OUTPUT -----\n";

fn context() -> RenderContext {
    RenderContext {
        cmd: "echo".to_string(),
        args: "hi".to_string(),
        date: "2024-01-02".to_string(),
        time: "03-04-05".to_string(),
        ts: "1704164645".to_string(),
        hostname: "box".to_string(),
        cwd: "/tmp".to_string(),
        exit_code: None,
    }
}

fn settings(split: bool, compress: Compress, timestamps: bool, plain: bool) -> Config {
    let mut cfg = Config::default();
    cfg.split_streams = split;
    cfg.combine_streams = !split;
    cfg.compress = compress;
    cfg.timestamp_each_line = timestamps;
    cfg.plain_lines = plain;
    cfg
}

fn begin(cfg: &Config) -> Session {
    let env: Vec<(String, String)> = Vec::new();
    Session::begin(cfg, &context(), &env).expect("the session begins")
}

fn gunzip(bytes: &[u8]) -> Vec<u8> {
    let mut out = Vec::new();
    GzDecoder::new(bytes).read_to_end(&mut out).expect("a valid gzip stream");
    out
}

fn text(bytes: Vec<u8>) -> String {
    String::from_utf8(bytes).expect("the log is text")
}

/// Runs a whole session over `lines` and gives back what the file of each
/// stream holds at the end: bytes taken out on the way, then the last ones.
fn run(cfg: &Config, lines: &[(Stream, &str)], status: Option<i32>) -> (Vec<u8>, Vec<u8>) {
    let mut s = begin(cfg);
    let mut out = s.take_output(Stream::Stdout);
    let mut err = if cfg.split_streams { s.take_output(Stream::Stderr) } else { Vec::new() };
    for (i, (origin, line)) in lines.iter().enumerate() {
        s.line_at(*origin, line, "12:00:00.000").expect("the line is taken");
        if i % 3 == 0 {
            out.extend(s.take_output(Stream::Stdout));
            if cfg.split_streams {
                err.extend(s.take_output(Stream::Stderr));
            }
        }
    }
    s.end_of_stream(Stream::Stdout).expect("stdout ends");
    s.end_of_stream(Stream::Stderr).expect("stderr ends");
    s.finish(status).expect("the run finishes");
    match s.close().expect("the logs close") {
        Remainder::Combined { log } => out.extend(log),
        Remainder::Split { out: a, err: b } => {
            out.extend(a);
            err.extend(b);
        }
    }
    (out, err)
}

const MIXED: [(Stream, &str); 7] = [
    (Stream::Stdout, "one"),
    (Stream::Stderr, "warn a"),
    (Stream::Stdout, "two"),
    (Stream::Stdout, ""),
    (Stream::Stderr, "warn b"),
    (Stream::Stderr, "warn a"),
    (Stream::Stdout, "three"),
];

#[test]
fn echo_hi_with_default_settings() {
    let cfg = Config::default();
    let (log, _) = run(&cfg, &[(Stream::Stdout, "hi")], Some(0));
    assert_eq!(
        text(log),
        format!("{}[12:00:00.000][STDOUT] hi\n\n[exit_code] 0\n", HEADER)
    );
}

#[test]
fn echo_hi_without_line_stamps() {
    let cfg = settings(false, Compress::Off, false, false);
    let (log, _) = run(&cfg, &[(Stream::Stdout, "hi")], Some(0));
    assert_eq!(text(log), format!("{}[STDOUT] hi\n\n[exit_code] 0\n", HEADER));
}

#[test]
fn echo_hi_with_the_clock() {
    let mut s = begin(&Config::default());
    assert_eq!(s.line(Stream::Stdout, "hi"), Ok(true));
    s.end_of_stream(Stream::Stdout).unwrap();
    s.end_of_stream(Stream::Stderr).unwrap();
    assert_eq!(s.finish(Some(0)), Ok(0));
    let mut log = s.take_output(Stream::Stdout);
    match s.close().unwrap() {
        Remainder::Combined { log: rest } => log.extend(rest),
        Remainder::Split { .. } => panic!("one log was asked for"),
    }
    let log = text(log);
    let body = log.strip_prefix(HEADER).expect("the header comes first");
    let body = body.strip_suffix("\n[exit_code] 0\n").expect("the trailer comes last");
    assert!(body.starts_with('['));
    assert_eq!(&body[13..], "][STDOUT] hi\n");
    assert_eq!(body.len(), 13 + "][STDOUT] hi\n".len());
}

#[test]
fn trailer_shows_exit_code_37() {
    let cfg = settings(false, Compress::Off, false, false);
    let (log, _) = run(&cfg, &[], Some(37));
    assert_eq!(text(log), format!("{}\n[exit_code] 37\n", HEADER));
}

#[test]
fn signal_gives_exit_code_1() {
    let cfg = settings(false, Compress::Off, false, false);
    let (log, _) = run(&cfg, &[], None);
    assert_eq!(text(log), format!("{}\n[exit_code] 1\n", HEADER));
    assert_eq!(exit_code(None), 1);
    assert_eq!(exit_code(Some(0)), 0);
    assert_eq!(exit_code(Some(37)), 37);
    assert_eq!(exit_code(Some(-2)), -2);
}

#[test]
fn combined_log_keeps_every_line_once_in_arrival_order() {
    let cfg = settings(false, Compress::Off, false, false);
    let (log, _) = run(&cfg, &MIXED, Some(0));
    assert_eq!(
        text(log),
        format!(
            "{}[STDOUT] one\n[STDERR] warn a\n[STDOUT] two\n[STDOUT] \n[STDERR] warn b\n[STDERR] warn a\n[STDOUT] three\n\n[exit_code] 0\n",
            HEADER
        )
    );
}

#[test]
fn combined_log_restricted_to_a_stream_is_that_stream() {
    let cfg = settings(false, Compress::Off, false, false);
    let (log, _) = run(&cfg, &MIXED, Some(0));
    let log = text(log);
    let tagged = |tag: &str| -> Vec<String> {
        log.lines().filter_map(|l| l.strip_prefix(tag).map(|t| t.to_string())).collect()
    };
    assert_eq!(tagged("[STDOUT] "), vec!["one", "two", "", "three"]);
    assert_eq!(tagged("[STDERR] "), vec!["warn a", "warn b", "warn a"]);
}

#[test]
fn split_logs_hold_each_stream_in_order() {
    let cfg = settings(true, Compress::Off, false, false);
    let (out, err) = run(&cfg, &MIXED, Some(3));
    assert_eq!(
        text(out),
        format!("{}[STDOUT] one\n[STDOUT] two\n[STDOUT] \n[STDOUT] three\n\n[exit_code] 3\n", HEADER)
    );
    assert_eq!(
        text(err),
        format!("{}[STDERR] warn a\n[STDERR] warn b\n[STDERR] warn a\n\n[exit_code] 3\n", HEADER)
    );
}

#[test]
fn split_logs_together_hold_what_the_combined_log_holds() {
    let (combined, _) = run(&settings(false, Compress::Off, true, false), &MIXED, Some(0));
    let (out, err) = run(&settings(true, Compress::Off, true, false), &MIXED, Some(0));
    let combined = text(combined);
    let out = text(out);
    let err = text(err);
    let of = |log: &str, tag: &str| -> Vec<String> {
        log.lines().filter(|l| l.contains(tag)).map(|l| l.to_string()).collect()
    };
    assert_eq!(of(&out, "[STDOUT]"), of(&combined, "[STDOUT]"));
    assert_eq!(of(&err, "[STDERR]"), of(&combined, "[STDERR]"));
    assert!(of(&out, "[STDERR]").is_empty());
    assert!(of(&err, "[STDOUT]").is_empty());
    assert_eq!(out.lines().count() + err.lines().count(), combined.lines().count() + 9);
}

#[test]
fn plain_lines_hold_only_the_text() {
    let cfg = settings(false, Compress::Off, true, true);
    let (log, _) = run(&cfg, &MIXED, Some(0));
    assert_eq!(
        text(log),
        format!("{}one\nwarn a\ntwo\n\nwarn b\nwarn a\nthree\n\n[exit_code] 0\n", HEADER)
    );
}

#[test]
fn plain_split_logs() {
    let cfg = settings(true, Compress::Off, false, true);
    let (out, err) = run(&cfg, &MIXED, Some(0));
    assert_eq!(text(out), format!("{}one\ntwo\n\nthree\n\n[exit_code] 0\n", HEADER));
    assert_eq!(text(err), format!("{}warn a\nwarn b\nwarn a\n\n[exit_code] 0\n", HEADER));
}

#[test]
fn compressed_log_decompresses_to_the_plain_log() {
    for split in [false, true] {
        for plain in [false, true] {
            let (a, b) = run(&settings(split, Compress::Off, true, plain), &MIXED, Some(5));
            let (x, y) = run(&settings(split, Compress::Gz, true, plain), &MIXED, Some(5));
            assert_eq!(gunzip(&x), a);
            assert_ne!(x, a);
            if split {
                assert_eq!(gunzip(&y), b);
            }
        }
    }
}

#[test]
fn thousand_stderr_lines_split_and_compressed() {
    let cfg = settings(true, Compress::Gz, true, false);
    let lines: Vec<String> = (0..1000).map(|i| format!("line {}", i)).collect();
    let events: Vec<(Stream, &str)> = lines.iter().map(|l| (Stream::Stderr, l.as_str())).collect();
    let (out, err) = run(&cfg, &events, Some(0));
    let err = text(gunzip(&err));
    let out = text(gunzip(&out));
    let header_lines = HEADER.lines().count();
    assert_eq!(header_lines, 7);
    assert_eq!(err.lines().count(), 1000 + header_lines + 2);
    assert_eq!(err.lines().filter(|l| l.contains("[STDERR] line ")).count(), 1000);
    assert_eq!(out, format!("{}\n[exit_code] 0\n", HEADER));
    for (i, l) in err.lines().skip(header_lines).take(1000).enumerate() {
        assert_eq!(l, format!("[12:00:00.000][STDERR] line {}", i));
    }
}

#[test]
fn non_ascii_lines_are_written_as_utf8() {
    let cfg = settings(false, Compress::Off, false, false);
    let (log, _) = run(&cfg, &[(Stream::Stdout, "gr\u{fc}\u{df}e \u{1f600}")], Some(0));
    assert_eq!(
        text(log),
        format!("{}[STDOUT] gr\u{fc}\u{df}e \u{1f600}\n\n[exit_code] 0\n", HEADER)
    );
}

#[test]
fn lines_are_mirrored_when_tee_is_on() {
    let mut cfg = Config::default();
    let mut s = begin(&cfg);
    assert_eq!(s.line_at(Stream::Stdout, "a", "t"), Ok(true));
    assert_eq!(s.line_at(Stream::Stderr, "b", "t"), Ok(true));
    cfg.tee = false;
    let mut s = begin(&cfg);
    assert_eq!(s.line_at(Stream::Stdout, "a", "t"), Ok(false));
    assert_eq!(s.line_at(Stream::Stderr, "b", "t"), Ok(false));
}

#[test]
fn a_closed_stream_takes_no_more_lines() {
    let mut s = begin(&Config::default());
    assert_eq!(s.pending(), Pending { out: true, err: true });
    assert!(!s.drained());
    assert_eq!(s.end_of_stream(Stream::Stdout), Ok(()));
    assert_eq!(s.pending(), Pending { out: false, err: true });
    assert_eq!(s.line_at(Stream::Stdout, "late", "t"), Err(LogError::StreamClosed));
    assert_eq!(s.end_of_stream(Stream::Stdout), Err(LogError::StreamClosed));
    assert_eq!(s.line_at(Stream::Stderr, "still fine", "t"), Ok(true));
    assert_eq!(s.end_of_stream(Stream::Stderr), Ok(()));
    assert_eq!(s.pending(), Pending { out: false, err: false });
    assert!(s.drained());
    assert_eq!(s.state(), Phase::Draining);
}

#[test]
fn finish_waits_for_both_streams() {
    let mut s = begin(&settings(false, Compress::Off, false, false));
    assert_eq!(s.finish(Some(0)), Err(LogError::StillOpen));
    s.end_of_stream(Stream::Stderr).unwrap();
    assert_eq!(s.finish(Some(0)), Err(LogError::StillOpen));
    s.end_of_stream(Stream::Stdout).unwrap();
    assert_eq!(s.state(), Phase::Draining);
    assert_eq!(s.finish(Some(4)), Ok(4));
    assert_eq!(s.state(), Phase::Finished);
    let log = s.take_output(Stream::Stdout);
    assert_eq!(text(log), format!("{}\n[exit_code] 4\n", HEADER));
}

#[test]
fn a_finished_run_takes_nothing_more() {
    let mut s = begin(&settings(false, Compress::Off, false, false));
    s.end_of_stream(Stream::Stdout).unwrap();
    s.end_of_stream(Stream::Stderr).unwrap();
    assert_eq!(s.finish(None), Ok(1));
    assert_eq!(s.finish(Some(0)), Err(LogError::Finished));
    assert_eq!(s.line_at(Stream::Stdout, "late", "t"), Err(LogError::Finished));
    assert_eq!(s.line(Stream::Stderr, "late"), Err(LogError::Finished));
    assert_eq!(s.end_of_stream(Stream::Stderr), Err(LogError::Finished));
    let log = s.take_output(Stream::Stdout);
    assert_eq!(text(log), format!("{}\n[exit_code] 1\n", HEADER));
}

#[test]
fn output_is_given_out_once() {
    let mut s = begin(&settings(false, Compress::Off, false, false));
    assert_eq!(text(s.take_output(Stream::Stdout)), HEADER);
    assert!(s.take_output(Stream::Stdout).is_empty());
    assert!(s.take_output(Stream::Stderr).is_empty());
    s.line_at(Stream::Stderr, "x", "").unwrap();
    assert_eq!(text(s.take_output(Stream::Stderr)), "[STDERR] x\n");
    assert!(s.take_output(Stream::Stdout).is_empty());
    match s.close().unwrap() {
        Remainder::Combined { log } => assert!(log.is_empty()),
        Remainder::Split { .. } => panic!("one log was asked for"),
    }
}

#[test]
fn header_records_the_environment_when_asked() {
    let mut cfg = settings(false, Compress::Off, false, false);
    cfg.log_env = true;
    let env = vec![("HOME".to_string(), "/home/me".to_string())];
    let mut s = Session::begin(&cfg, &context(), &env).unwrap();
    assert_eq!(
        text(s.take_output(Stream::Stdout)),
        "# lg log\ncmd: echo\nargs: hi\ndate: 2024-01-02 03-04-05\ncwd: /tmp\nhost: box\nenv[HOME]=/home/me\n----- BEGIN OUTPUT -----\n"
    );
}

#[test]
fn sinks_take_header_lines_and_trailer() {
    let cfg = settings(false, Compress::Off, false, false);
    let env: Vec<(String, String)> = Vec::new();
    let mut sink = open_writer(&cfg);
    assert!(write_header(&mut sink, &cfg, &context(), &env));
    assert!(write_line_at(&mut sink, Stream::Stdout, "a", Some("00:00:01.000"), false));
    assert!(write_line_at(&mut sink, Stream::Stderr, "b", None, false));
    assert!(write_line_at(&mut sink, Stream::Stderr, "c", Some("x"), true));
    assert_eq!(write_line(&mut sink, Stream::Stdout, "d", false, false), Ok(()));
    assert_eq!(write_line(&mut sink, Stream::Stdout, "e", true, true), Ok(()));
    assert!(write_trailer(&mut sink, 2));
    assert_eq!(
        text(sink.close().unwrap()),
        format!(
            "{}[00:00:01.000][STDOUT] a\n[STDERR] b\nc\n[STDOUT] d\ne\n\n[exit_code] 2\n",
            HEADER
        )
    );
}

#[test]
fn write_line_reads_the_clock() {
    let mut sink = Sink::open(Compress::Off);
    assert_eq!(write_line(&mut sink, Stream::Stderr, "x", true, false), Ok(()));
    let line = text(sink.take_output());
    assert_eq!(line.len(), 1 + 12 + "][STDERR] x\n".len());
    assert!(line.starts_with('['));
    assert!(line.ends_with("][STDERR] x\n"));
}

#[test]
fn gzip_sink_gives_one_stream_in_pieces() {
    let mut sink = Sink::open(Compress::Gz);
    let mut file = Vec::new();
    assert!(sink.append(b"hello "));
    file.extend(sink.take_output());
    assert!(sink.append(b"world"));
    file.extend(sink.take_output());
    assert!(sink.append(b""));
    file.extend(sink.close().expect("the stream ends"));
    assert_eq!(gunzip(&file), b"hello world");
}

#[test]
fn plain_sink_gives_what_it_took() {
    let mut sink = Sink::open(Compress::Off);
    assert!(sink.take_output().is_empty());
    assert!(sink.append(b"ab"));
    assert!(sink.append(b"cd"));
    assert_eq!(sink.take_output(), b"abcd");
    assert!(sink.append(b"ef"));
    assert_eq!(sink.close(), Some(b"ef".to_vec()));
}

#[test]
fn empty_gzip_log_is_a_valid_stream() {
    let sink = Sink::open(Compress::Gz);
    let file = sink.close().expect("the stream ends");
    assert!(!file.is_empty());
    assert_eq!(gunzip(&file), b"");
}

#[test]
fn closing_a_gzip_sink_finishes_the_stream() {
    let mut sink = Sink::open(Compress::Gz);
    assert!(sink.take_output().is_empty());
    assert!(sink.append(b"some text that is compressed"));
    let early = sink.take_output();
    assert!(sink.take_output().is_empty());
    let last = sink.close().expect("the stream ends");
    assert!(last.len() >= 8);
    let mut file = early.clone();
    file.extend(&last);
    assert_eq!(gunzip(&file), b"some text that is compressed");
    let mut truncated = Vec::new();
    assert!(GzDecoder::new(&early[..]).read_to_end(&mut truncated).is_err());
}

#[test]
fn a_session_gives_out_all_that_is_ready() {
    let mut s = begin(&settings(true, Compress::Gz, false, false));
    s.line_at(Stream::Stdout, "x", "").unwrap();
    let first = s.take_output(Stream::Stdout);
    assert!(s.take_output(Stream::Stdout).is_empty());
    s.end_of_stream(Stream::Stdout).unwrap();
    s.end_of_stream(Stream::Stderr).unwrap();
    s.finish(Some(0)).unwrap();
    match s.close().unwrap() {
        Remainder::Split { out, err } => {
            let mut file = first;
            file.extend(out);
            assert_eq!(text(gunzip(&file)), format!("{}[STDOUT] x\n\n[exit_code] 0\n", HEADER));
            assert_eq!(text(gunzip(&err)), format!("{}\n[exit_code] 0\n", HEADER));
        }
        Remainder::Combined { .. } => panic!("two logs were asked for"),
    }
}

#[test]
fn a_refused_line_is_refused_before_the_clock_is_read() {
    let mut s = begin(&Config::default());
    assert!(s.stamps_lines());
    s.end_of_stream(Stream::Stdout).unwrap();
    assert_eq!(s.line(Stream::Stdout, "late"), Err(LogError::StreamClosed));
    s.end_of_stream(Stream::Stderr).unwrap();
    s.finish(Some(0)).unwrap();
    assert_eq!(s.line(Stream::Stderr, "late"), Err(LogError::Finished));
}
