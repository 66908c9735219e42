use lg::config::{Compress, Config};
use lg::paths::{
    compressed_extension, ends_with, finalize_files, is_separator_free, output_dir, plan_files,
    replace_extension, temp_name, LogFiles,
};
use lg::run::finalize;
use lg::template::RenderContext;

fn context() -> RenderContext {
    RenderContext {
        cmd: "echo".to_string(),
        args: "hi".to_string(),
        date: "2024-01-02".to_string(),
        time: "03-04-05".to_string(),
        ts: "1704164645".to_string(),
        hostname: "box".to_string(),
        cwd: "/work".to_string(),
        exit_code: None,
    }
}

fn settings(template: &str, split: bool, compress: Compress) -> Config {
    let mut cfg = Config::default();
    cfg.filename_template = template.to_string();
    cfg.split_streams = split;
    cfg.combine_streams = !split;
    cfg.compress = compress;
    cfg
}

fn combined(files: &LogFiles) -> String {
    match files {
        LogFiles::Combined { path } => path.clone(),
        LogFiles::Split { .. } => panic!("one log was asked for"),
    }
}

fn split(files: &LogFiles) -> (String, String) {
    match files {
        LogFiles::Split { out, err } => (out.clone(), err.clone()),
        LogFiles::Combined { .. } => panic!("two logs were asked for"),
    }
}

#[test]
fn small_pieces_of_names() {
    assert_eq!(temp_name("a.log"), ".a.log.partial");
    assert_eq!(temp_name(""), "..partial");
    assert_eq!(compressed_extension(Some("log".to_string())), "log.gz");
    assert_eq!(compressed_extension(Some("partial".to_string())), "partial.gz");
    assert_eq!(compressed_extension(Some("".to_string())), ".gz");
    assert_eq!(compressed_extension(None), "log.gz");
    assert!(ends_with("a.log.gz", ".gz"));
    assert!(ends_with(".gz", ".gz"));
    assert!(ends_with("abc", ""));
    assert!(!ends_with("a.loggz", ".gz"));
    assert!(!ends_with("gz", ".gz"));
    assert!(!ends_with("", ".gz"));
}

#[test]
fn extensions_are_replaced() {
    assert_eq!(replace_extension("/work/a.log", "txt"), "/work/a.txt");
    assert_eq!(replace_extension("/work/a.log", "out.log"), "/work/a.out.log");
    assert_eq!(replace_extension("/work/a", "log"), "/work/a.log");
    assert_eq!(replace_extension("/work/.hidden", "log"), "/work/.hidden.log");
    assert_eq!(replace_extension("/work/a.tar.gz", "xz"), "/work/a.tar.xz");
}

#[test]
fn an_extension_with_a_separator_is_not_set() {
    assert!(is_separator_free("out.log"));
    assert!(is_separator_free(""));
    assert!(!is_separator_free("a/b"));
    assert_eq!(replace_extension("/work/a.log", "b/c"), "/work/a.log");
}

#[test]
fn output_directory() {
    let mut cfg = Config::default();
    assert_eq!(output_dir(&cfg, "/work"), "/work");
    cfg.output_dir = Some("/logs".to_string());
    assert_eq!(output_dir(&cfg, "/work"), "/logs");
}

#[test]
fn default_plan_is_one_log_in_the_working_directory() {
    let cfg = Config::default();
    let files = plan_files(&cfg, &context(), "/work");
    assert_eq!(combined(&files), "/work/echo_2024-01-02_03-04-05.log");
    assert!(finalize_files(&cfg, &context(), "/work", 0, &files).is_none());
    assert!(finalize(&cfg, &context(), "/work", 0, &files).is_empty());
}

#[test]
fn a_name_without_extension_gets_log() {
    let cfg = settings("{cmd}", false, Compress::Off);
    assert_eq!(combined(&plan_files(&cfg, &context(), "/work")), "/work/echo.log");
}

#[test]
fn logs_go_to_the_configured_directory() {
    let mut cfg = Config::default();
    cfg.output_dir = Some("/logs".to_string());
    assert_eq!(
        combined(&plan_files(&cfg, &context(), "/work")),
        "/logs/echo_2024-01-02_03-04-05.log"
    );
}

#[test]
fn a_compressed_log_ends_in_gz_after_its_extension() {
    let cfg = settings("{cmd}.log", false, Compress::Gz);
    assert_eq!(combined(&plan_files(&cfg, &context(), "/work")), "/work/echo.log.gz");
    let cfg = settings("{cmd}.log.gz", false, Compress::Gz);
    assert_eq!(combined(&plan_files(&cfg, &context(), "/work")), "/work/echo.log.gz");
    let cfg = settings("{cmd}", false, Compress::Gz);
    assert_eq!(combined(&plan_files(&cfg, &context(), "/work")), "/work/echo.log.gz");
    let cfg = settings("{cmd}.txt", false, Compress::Gz);
    assert_eq!(combined(&plan_files(&cfg, &context(), "/work")), "/work/echo.txt.gz");
}

#[test]
fn the_default_name_compressed() {
    let cfg = settings("{cmd}_{date}_{time}.log", false, Compress::Gz);
    assert_eq!(
        combined(&plan_files(&cfg, &context(), "/work")),
        "/work/echo_2024-01-02_03-04-05.log.gz"
    );
}

#[test]
fn split_logs_get_the_extension_of_their_stream() {
    let cfg = settings("{cmd}.log", true, Compress::Off);
    let (out, err) = split(&plan_files(&cfg, &context(), "/work"));
    assert_eq!(out, "/work/echo.out.log");
    assert_eq!(err, "/work/echo.err.log");
    let cfg = settings("{cmd}", true, Compress::Off);
    let (out, err) = split(&plan_files(&cfg, &context(), "/work"));
    assert_eq!(out, "/work/echo.out.log");
    assert_eq!(err, "/work/echo.err.log");
}

#[test]
fn compressed_split_logs_end_in_log_gz() {
    let cfg = settings("{cmd}.log", true, Compress::Gz);
    let (out, err) = split(&plan_files(&cfg, &context(), "/work"));
    assert_eq!(out, "/work/echo.out.out.log.gz");
    assert_eq!(err, "/work/echo.err.err.log.gz");
    assert!(ends_with(&out, ".out.log.gz"));
    assert!(ends_with(&err, ".err.log.gz"));
}

#[test]
fn a_name_with_the_exit_code_is_written_under_a_hidden_name_first() {
    let cfg = settings("{cmd}_{exit_code}.log", false, Compress::Off);
    let files = plan_files(&cfg, &context(), "/work");
    assert_eq!(combined(&files), "/work/.echo_NA.log.partial");
    let finals = finalize_files(&cfg, &context(), "/work", 37, &files).expect("a rename is due");
    assert_eq!(combined(&finals), "/work/echo_37.log");
    let renames = finalize(&cfg, &context(), "/work", 37, &files);
    assert_eq!(renames.len(), 1);
    assert_eq!(renames[0].from, "/work/.echo_NA.log.partial");
    assert_eq!(renames[0].to, "/work/echo_37.log");
}

#[test]
fn a_hidden_name_without_extension_gets_log_first() {
    let cfg = settings("{cmd}_{exit_code}", false, Compress::Off);
    let files = plan_files(&cfg, &context(), "/work");
    assert_eq!(combined(&files), "/work/.echo_NA.log.partial");
    let renames = finalize(&cfg, &context(), "/work", 0, &files);
    assert_eq!(renames.len(), 1);
    assert_eq!(renames[0].from, "/work/.echo_NA.log.partial");
    assert_eq!(renames[0].to, "/work/echo_0.log");
}

#[test]
fn a_compressed_hidden_log_ends_in_gz_before_and_after_renaming() {
    let cfg = settings("{cmd}_{exit_code}.log", false, Compress::Gz);
    let files = plan_files(&cfg, &context(), "/work");
    assert_eq!(combined(&files), "/work/.echo_NA.log.partial.gz");
    let renames = finalize(&cfg, &context(), "/work", 2, &files);
    assert_eq!(renames.len(), 1);
    assert_eq!(renames[0].from, "/work/.echo_NA.log.partial.gz");
    assert_eq!(renames[0].to, "/work/echo_2.log.gz");
}

#[test]
fn a_compressed_log_keeps_its_own_extension_in_its_final_name() {
    let cfg = settings("{cmd}_{exit_code}.txt", false, Compress::Gz);
    let files = plan_files(&cfg, &context(), "/work");
    assert_eq!(combined(&files), "/work/.echo_NA.txt.partial.gz");
    let renames = finalize(&cfg, &context(), "/work", 0, &files);
    assert_eq!(renames[0].to, "/work/echo_0.txt.gz");
    let cfg = settings("{cmd}_{exit_code}", false, Compress::Gz);
    let files = plan_files(&cfg, &context(), "/work");
    assert_eq!(combined(&files), "/work/.echo_NA.log.partial.gz");
    let renames = finalize(&cfg, &context(), "/work", 0, &files);
    assert_eq!(renames[0].to, "/work/echo_0.log.gz");
}

#[test]
fn a_log_written_to_a_gz_path_keeps_gz_in_its_final_name() {
    let cfg = settings("{cmd}_{exit_code}", false, Compress::Gz);
    let written = LogFiles::Combined { path: "/work/somewhere.gz".to_string() };
    let renames = finalize(&cfg, &context(), "/work", 2, &written);
    assert_eq!(renames.len(), 1);
    assert_eq!(renames[0].from, "/work/somewhere.gz");
    assert_eq!(renames[0].to, "/work/echo_2.log.gz");
    let cfg = settings("{cmd}_{exit_code}.gz", false, Compress::Gz);
    let renames = finalize(&cfg, &context(), "/work", 2, &written);
    assert_eq!(renames[0].to, "/work/echo_2.gz");
    let cfg = settings("{cmd}_{exit_code}.log", false, Compress::Off);
    let renames = finalize(&cfg, &context(), "/work", 2, &written);
    assert_eq!(renames[0].to, "/work/echo_2.log.gz");
    let plain = LogFiles::Combined { path: "/work/somewhere".to_string() };
    let renames = finalize(&cfg, &context(), "/work", 2, &plain);
    assert_eq!(renames[0].to, "/work/echo_2.log");
}

#[test]
fn split_logs_are_renamed_each_with_its_suffix() {
    let cfg = settings("{cmd}_{exit_code}.log", true, Compress::Off);
    let files = plan_files(&cfg, &context(), "/work");
    let (out, err) = split(&files);
    assert_eq!(out, "/work/.echo_NA.log.out.log");
    assert_eq!(err, "/work/.echo_NA.log.err.log");
    let renames = finalize(&cfg, &context(), "/work", 1, &files);
    assert_eq!(renames.len(), 2);
    assert_eq!(renames[0].from, out);
    assert_eq!(renames[0].to, "/work/echo_1.log.out.log");
    assert_eq!(renames[1].from, err);
    assert_eq!(renames[1].to, "/work/echo_1.log.err.log");
}

#[test]
fn compressed_split_logs_are_renamed_with_gz() {
    let cfg = settings("{cmd}_{exit_code}", true, Compress::Gz);
    let files = plan_files(&cfg, &context(), "/work");
    let renames = finalize(&cfg, &context(), "/work", -1, &files);
    assert_eq!(renames.len(), 2);
    assert_eq!(renames[0].to, "/work/echo_-1.out.log.gz");
    assert_eq!(renames[1].to, "/work/echo_-1.err.log.gz");
}

#[test]
fn the_exit_code_in_the_context_does_not_change_the_plan() {
    let cfg = settings("{cmd}_{exit_code}.log", false, Compress::Off);
    let mut ctx = context();
    ctx.exit_code = Some(9);
    let files = plan_files(&cfg, &ctx, "/work");
    assert_eq!(combined(&files), "/work/.echo_NA.log.partial");
    let renames = finalize(&cfg, &ctx, "/work", 3, &files);
    assert_eq!(renames[0].to, "/work/echo_3.log");
}
