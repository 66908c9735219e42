use lg::config::{apply_overrides, default_compress, parse_compress, CliOverrides, Compress, Config};

fn no_overrides() -> CliOverrides {
    CliOverrides {
        output: None,
        filename_template: None,
        include_args: false,
        split_streams: false,
        plain_lines: false,
        compress: None,
        no_tee: false,
    }
}

#[test]
fn default_compress_is_off() {
    assert_eq!(default_compress(), Compress::Off);
}

#[test]
fn default_settings() {
    let cfg = Config::default();
    assert_eq!(cfg.output_dir, None);
    assert!(!cfg.include_args_in_name);
    assert!(cfg.include_full_args);
    assert!(cfg.sanitize_filename);
    assert_eq!(cfg.filename_template, "{cmd}_{date}_{time}.log");
    assert_eq!(cfg.date_format, "%Y-%m-%d");
    assert_eq!(cfg.time_format, "%H-%M-%S");
    assert!(cfg.timestamp_each_line);
    assert!(!cfg.plain_lines);
    assert!(cfg.combine_streams);
    assert!(!cfg.split_streams);
    assert!(cfg.tee);
    assert!(!cfg.log_env);
    assert_eq!(cfg.compress, Compress::Off);
}

#[test]
fn parse_compress_names() {
    assert_eq!(parse_compress("gz"), Some(Compress::Gz));
    assert_eq!(parse_compress("none"), Some(Compress::Off));
    assert_eq!(parse_compress(""), Some(Compress::Off));
    assert_eq!(parse_compress("zip"), None);
    assert_eq!(parse_compress("GZ"), None);
    assert_eq!(parse_compress("gzz"), None);
    assert_eq!(parse_compress("g"), None);
}

#[test]
fn no_overrides_change_nothing() {
    let r = apply_overrides(Config::default(), no_overrides());
    assert_eq!(r.unknown_compress, None);
    let cfg = r.config;
    assert_eq!(cfg.output_dir, None);
    assert_eq!(cfg.filename_template, "{cmd}_{date}_{time}.log");
    assert!(!cfg.include_args_in_name);
    assert!(cfg.combine_streams);
    assert!(!cfg.split_streams);
    assert!(!cfg.plain_lines);
    assert!(cfg.tee);
    assert_eq!(cfg.compress, Compress::Off);
}

#[test]
fn overrides_win_over_settings() {
    let cli = CliOverrides {
        output: Some("/logs".to_string()),
        filename_template: Some("{cmd}_{exit_code}".to_string()),
        include_args: true,
        split_streams: true,
        plain_lines: true,
        compress: Some("gz".to_string()),
        no_tee: true,
    };
    let r = apply_overrides(Config::default(), cli);
    assert_eq!(r.unknown_compress, None);
    let cfg = r.config;
    assert_eq!(cfg.output_dir, Some("/logs".to_string()));
    assert_eq!(cfg.filename_template, "{cmd}_{exit_code}");
    assert!(cfg.include_args_in_name);
    assert!(cfg.split_streams);
    assert!(!cfg.combine_streams);
    assert!(cfg.plain_lines);
    assert!(!cfg.tee);
    assert_eq!(cfg.compress, Compress::Gz);
    assert!(cfg.include_full_args);
    assert!(cfg.sanitize_filename);
    assert!(cfg.timestamp_each_line);
    assert!(!cfg.log_env);
    assert_eq!(cfg.date_format, "%Y-%m-%d");
    assert_eq!(cfg.time_format, "%H-%M-%S");
}

#[test]
fn settings_stay_where_no_option_is_given() {
    let mut base = Config::default();
    base.output_dir = Some("/var/log".to_string());
    base.compress = Compress::Gz;
    base.split_streams = true;
    base.combine_streams = false;
    base.tee = false;
    base.plain_lines = true;
    base.include_args_in_name = true;
    let cfg = apply_overrides(base, no_overrides()).config;
    assert_eq!(cfg.output_dir, Some("/var/log".to_string()));
    assert_eq!(cfg.compress, Compress::Gz);
    assert!(cfg.split_streams);
    assert!(!cfg.combine_streams);
    assert!(!cfg.tee);
    assert!(cfg.plain_lines);
    assert!(cfg.include_args_in_name);
}

#[test]
fn unknown_compress_falls_back_to_none_and_is_reported() {
    let mut base = Config::default();
    base.compress = Compress::Gz;
    let mut cli = no_overrides();
    cli.compress = Some("bzip2".to_string());
    let r = apply_overrides(base, cli);
    assert_eq!(r.config.compress, Compress::Off);
    assert_eq!(r.unknown_compress, Some("bzip2".to_string()));
}

#[test]
fn compress_none_turns_compression_off() {
    let mut base = Config::default();
    base.compress = Compress::Gz;
    let mut cli = no_overrides();
    cli.compress = Some("none".to_string());
    let r = apply_overrides(base, cli);
    assert_eq!(r.config.compress, Compress::Off);
    assert_eq!(r.unknown_compress, None);
    let mut base = Config::default();
    base.compress = Compress::Gz;
    let mut cli = no_overrides();
    cli.compress = Some(String::new());
    assert_eq!(apply_overrides(base, cli).config.compress, Compress::Off);
}
