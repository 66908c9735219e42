//! The settings of one run, and how options given on the command line
//! change them.

use vstd::prelude::*;
use crate::text::{chars_of, same_chars};

verus! {

/// How a log file is compressed.
#[derive(Clone, Copy, Debug, PartialEq, Eq, Structural)]
pub enum Compress {
    Off,
    Gz,
}

/// The compression of a run that asks for none.
pub fn default_compress() -> (c: Compress)
    ensures
        c == Compress::Off,
{
    Compress::Off
}

/// The settings of one run.
#[derive(Clone, Debug)]
pub struct Config {
    pub output_dir: Option<String>,
    pub include_args_in_name: bool,
    pub include_full_args: bool,
    pub sanitize_filename: bool,
    pub filename_template: String,
    pub date_format: String,
    pub time_format: String,
    pub timestamp_each_line: bool,
    pub plain_lines: bool,
    pub combine_streams: bool,
    pub split_streams: bool,
    pub tee: bool,
    pub log_env: bool,
    pub compress: Compress,
}

/// The mathematical value of a `Config`.
pub struct Settings {
    pub output_dir: Option<Seq<char>>,
    pub include_args_in_name: bool,
    pub include_full_args: bool,
    pub sanitize_filename: bool,
    pub filename_template: Seq<char>,
    pub date_format: Seq<char>,
    pub time_format: Seq<char>,
    pub timestamp_each_line: bool,
    pub plain_lines: bool,
    pub combine_streams: bool,
    pub split_streams: bool,
    pub tee: bool,
    pub log_env: bool,
    pub compress: Compress,
}

/// The text of a string that may be absent.
pub open spec fn text_of(s: Option<String>) -> Option<Seq<char>> {
    match s {
        Some(t) => Some(t@),
        None => None,
    }
}

impl View for Config {
    type V = Settings;

    open spec fn view(&self) -> Settings {
        Settings {
            output_dir: text_of(self.output_dir),
            include_args_in_name: self.include_args_in_name,
            include_full_args: self.include_full_args,
            sanitize_filename: self.sanitize_filename,
            filename_template: self.filename_template@,
            date_format: self.date_format@,
            time_format: self.time_format@,
            timestamp_each_line: self.timestamp_each_line,
            plain_lines: self.plain_lines,
            combine_streams: self.combine_streams,
            split_streams: self.split_streams,
            tee: self.tee,
            log_env: self.log_env,
            compress: self.compress,
        }
    }
}

/// The settings of a run for which nothing was configured: one log file in
/// the working directory, named after the command, the date and the time,
/// with a time stamp and the stream's name before each line, mirrored to the
/// terminal, not compressed.
pub open spec fn default_settings() -> Settings {
    Settings {
        output_dir: None,
        include_args_in_name: false,
        include_full_args: true,
        sanitize_filename: true,
        filename_template: "{cmd}_{date}_{time}.log"@,
        date_format: "%Y-%m-%d"@,
        time_format: "%H-%M-%S"@,
        timestamp_each_line: true,
        plain_lines: false,
        combine_streams: true,
        split_streams: false,
        tee: true,
        log_env: false,
        compress: Compress::Off,
    }
}

impl Default for Config {
    fn default() -> (c: Config)
        ensures
            c@ == default_settings(),
    {
        Config {
            output_dir: None,
            include_args_in_name: false,
            include_full_args: true,
            sanitize_filename: true,
            filename_template: "{cmd}_{date}_{time}.log".to_owned(),
            date_format: "%Y-%m-%d".to_owned(),
            time_format: "%H-%M-%S".to_owned(),
            timestamp_each_line: true,
            plain_lines: false,
            combine_streams: true,
            split_streams: false,
            tee: true,
            log_env: false,
            compress: default_compress(),
        }
    }
}

/// The options of the command line that change the settings. An option that
/// was not given is `None` or `false`.
#[derive(Clone, Debug)]
pub struct CliOverrides {
    pub output: Option<String>,
    pub filename_template: Option<String>,
    pub include_args: bool,
    pub split_streams: bool,
    pub plain_lines: bool,
    pub compress: Option<String>,
    pub no_tee: bool,
}

/// The mathematical value of a `CliOverrides`.
pub struct Overrides {
    pub output: Option<Seq<char>>,
    pub filename_template: Option<Seq<char>>,
    pub include_args: bool,
    pub split_streams: bool,
    pub plain_lines: bool,
    pub compress: Option<Seq<char>>,
    pub no_tee: bool,
}

impl View for CliOverrides {
    type V = Overrides;

    open spec fn view(&self) -> Overrides {
        Overrides {
            output: text_of(self.output),
            filename_template: text_of(self.filename_template),
            include_args: self.include_args,
            split_streams: self.split_streams,
            plain_lines: self.plain_lines,
            compress: text_of(self.compress),
            no_tee: self.no_tee,
        }
    }
}

/// The compression that a name stands for: `gz` for gzip, `none` or nothing
/// for none. Other names stand for no compression that is known.
pub open spec fn compress_named(name: Seq<char>) -> Option<Compress> {
    if name == seq!['g', 'z'] {
        Some(Compress::Gz)
    } else if name == seq!['n', 'o', 'n', 'e'] || name.len() == 0 {
        Some(Compress::Off)
    } else {
        None
    }
}

/// The compression that the command line asks for, given what the settings
/// held before: the one named, none where the name is not known, and the
/// earlier one where no name was given.
pub open spec fn chosen_compress(before: Compress, name: Option<Seq<char>>) -> Compress {
    match name {
        Some(n) => match compress_named(n) {
            Some(c) => c,
            None => Compress::Off,
        },
        None => before,
    }
}

/// A name of a compression that is not known, if one was given.
pub open spec fn unknown_compress(name: Option<Seq<char>>) -> Option<Seq<char>> {
    match name {
        Some(n) => if compress_named(n) is None {
            Some(n)
        } else {
            None
        },
        None => None,
    }
}

/// The settings `base` as the options `cli` change them. An option that was
/// given wins over the setting; asking for split streams turns combining
/// off.
pub open spec fn merged(base: Settings, cli: Overrides) -> Settings {
    Settings {
        output_dir: if cli.output is Some {
            cli.output
        } else {
            base.output_dir
        },
        include_args_in_name: base.include_args_in_name || cli.include_args,
        include_full_args: base.include_full_args,
        sanitize_filename: base.sanitize_filename,
        filename_template: match cli.filename_template {
            Some(t) => t,
            None => base.filename_template,
        },
        date_format: base.date_format,
        time_format: base.time_format,
        timestamp_each_line: base.timestamp_each_line,
        plain_lines: base.plain_lines || cli.plain_lines,
        combine_streams: base.combine_streams && !cli.split_streams,
        split_streams: base.split_streams || cli.split_streams,
        tee: base.tee && !cli.no_tee,
        log_env: base.log_env,
        compress: chosen_compress(base.compress, cli.compress),
    }
}

/// The compression that `name` stands for, `None` where the name is not
/// known.
pub fn parse_compress(name: &str) -> (r: Option<Compress>)
    ensures
        r == compress_named(name@),
{
    let n = chars_of(name);
    let gz: Vec<char> = vec!['g', 'z'];
    let none: Vec<char> = vec!['n', 'o', 'n', 'e'];
    if same_chars(&n, &gz) {
        Some(Compress::Gz)
    } else if same_chars(&n, &none) || n.len() == 0 {
        Some(Compress::Off)
    } else {
        None
    }
}

/// Settings after the command line was applied, and the name of a
/// compression that was given and is not known, for the caller to warn of.
pub struct Resolved {
    pub config: Config,
    pub unknown_compress: Option<String>,
}

fn choose_compress(before: Compress, name: Option<String>) -> (r: (Compress, Option<String>))
    ensures
        r.0 == chosen_compress(before, text_of(name)),
        text_of(r.1) == unknown_compress(text_of(name)),
{
    match name {
        Some(n) => match parse_compress(n.as_str()) {
            Some(c) => (c, None),
            None => (Compress::Off, Some(n)),
        },
        None => (before, None),
    }
}

/// Applies the options of the command line to the settings.
pub fn apply_overrides(base: Config, cli: CliOverrides) -> (r: Resolved)
    ensures
        r.config@ == merged(base@, cli@),
        text_of(r.unknown_compress) == unknown_compress(cli@.compress),
{
    let output_dir = match cli.output {
        Some(dir) => Some(dir),
        None => base.output_dir,
    };
    let filename_template = match cli.filename_template {
        Some(tpl) => tpl,
        None => base.filename_template,
    };
    let (compress, unknown) = choose_compress(base.compress, cli.compress);
    let config = Config {
        output_dir,
        include_args_in_name: base.include_args_in_name || cli.include_args,
        include_full_args: base.include_full_args,
        sanitize_filename: base.sanitize_filename,
        filename_template,
        date_format: base.date_format,
        time_format: base.time_format,
        timestamp_each_line: base.timestamp_each_line,
        plain_lines: base.plain_lines || cli.plain_lines,
        combine_streams: base.combine_streams && !cli.split_streams,
        split_streams: base.split_streams || cli.split_streams,
        tee: base.tee && !cli.no_tee,
        log_env: base.log_env,
        compress,
    };
    Resolved { config, unknown_compress: unknown }
}

} // verus!
