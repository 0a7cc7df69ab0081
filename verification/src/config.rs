use crate::decimal::parse_u64;
use crate::decimal::spec_parse_u64;
use crate::options::OptionsPrivate;
use crate::options::Rollover;
use crate::text::str_eq;
use vstd::prelude::*;
use vstd::string::StringSliceAdditionalSpecFns;
use vstd::utf8::encode_utf8;

verus! {

/// Why the arguments of the program could not be used.
#[derive(Clone, Copy, Debug, PartialEq, Eq, Structural)]
pub enum ConfigError {
    /// No number follows `--duplicate-packets`.
    MissingDuplicatePackets,
    /// The value of a flag is no number, or one that does not fit.
    InvalidNumber,
    /// More duplicates are asked for than can be counted.
    TooManyDuplicates,
    /// No number follows `-m`.
    MissingMaxRetries,
    /// The roll-over policy is none of `n`, `0`, `1`, `x`.
    InvalidRollover,
    /// No policy follows `-R`.
    MissingRollover,
    /// No address follows `-i`.
    MissingIpAddress,
    /// No number follows `-p`.
    MissingPort,
    /// No directory follows `-d`.
    MissingDirectory,
    /// No directory follows `-rd`.
    MissingReceiveDirectory,
    /// No directory follows `-sd`.
    MissingSendDirectory,
    /// No number follows `-b`.
    MissingBlocksize,
    /// No number follows `-w`.
    MissingWindowsize,
    /// No duration follows a flag that takes one.
    MissingDuration,
    /// A duration is not written as seconds in decimal.
    InvalidDuration,
    /// A duration is shorter than a millisecond.
    DurationTooShort,
    /// A duration is longer than 255 seconds.
    DurationTooLong,
    /// The argument at this index is a flag that is not known.
    InvalidFlag {
        /// Index of the argument
        index: usize,
    },
    /// More than one file is named.
    TooManyArguments,
    /// No file is named.
    MissingFilename,
    /// The help text was asked for.
    Help,
    /// The version was asked for.
    Version,
}

/// What reading one argument comes to.
pub struct LocalStep {
    /// Whether the argument is a flag of the local options, or the error
    pub result: Result<bool, ConfigError>,
    /// Whether the argument after it was used up as its value
    pub took: bool,
    /// The local options after it
    pub local: OptionsPrivate,
}

/// The number below `limit` that `text` writes in decimal.
pub open spec fn spec_parse_below(text: Seq<char>, limit: int) -> Option<u64> {
    match spec_parse_u64(encode_utf8(text)) {
        Some(v) => if v < limit {
            Some(v)
        } else {
            None
        },
        None => None,
    }
}

/// Reads a number below `limit` written in decimal.
pub fn parse_below(text: &str, limit: u64) -> (r: Option<u64>)
    ensures
        r == spec_parse_below(text@, limit as int),
{
    match parse_u64(text.as_bytes()) {
        Some(v) => if v < limit {
            Some(v)
        } else {
            None
        },
        None => None,
    }
}

/// The roll-over policy that `text` names.
pub open spec fn spec_parse_rollover(text: Seq<char>) -> Option<Rollover> {
    if text == "n"@ {
        Some(Rollover::Forbidden)
    } else if text == "0"@ {
        Some(Rollover::Enforce0)
    } else if text == "1"@ {
        Some(Rollover::Enforce1)
    } else if text == "x"@ {
        Some(Rollover::DontCare)
    } else {
        None
    }
}

/// What reading `arg` as a flag of the local options comes to, where
/// `value` is the argument after it, if there is one.
pub open spec fn spec_parse_local_args(
    arg: Seq<char>,
    value: Option<Seq<char>>,
    local: OptionsPrivate,
) -> LocalStep {
    if arg == "--duplicate-packets"@ {
        match value {
            None => LocalStep {
                result: Err(ConfigError::MissingDuplicatePackets),
                took: false,
                local,
            },
            Some(text) => match spec_parse_below(text, 256) {
                None => LocalStep { result: Err(ConfigError::InvalidNumber), took: true, local },
                Some(count) => if count == 255 {
                    LocalStep { result: Err(ConfigError::TooManyDuplicates), took: true, local }
                } else {
                    LocalStep {
                        result: Ok(true),
                        took: true,
                        local: OptionsPrivate { repeat_count: (count + 1) as u8, ..local },
                    }
                },
            },
        }
    } else if arg == "--keep-on-error"@ {
        LocalStep {
            result: Ok(true),
            took: false,
            local: OptionsPrivate { clean_on_error: false, ..local },
        }
    } else if arg == "-m"@ || arg == "--maxretries"@ {
        match value {
            None => LocalStep { result: Err(ConfigError::MissingMaxRetries), took: false, local },
            Some(text) => match spec_parse_below(text, usize::MAX + 1) {
                None => LocalStep { result: Err(ConfigError::InvalidNumber), took: true, local },
                Some(count) => LocalStep {
                    result: Ok(true),
                    took: true,
                    local: OptionsPrivate { max_retries: count as usize, ..local },
                },
            },
        }
    } else if arg == "-R"@ || arg == "--rollover"@ {
        match value {
            None => LocalStep { result: Err(ConfigError::MissingRollover), took: false, local },
            Some(text) => match spec_parse_rollover(text) {
                None => LocalStep { result: Err(ConfigError::InvalidRollover), took: true, local },
                Some(rollover) => LocalStep {
                    result: Ok(true),
                    took: true,
                    local: OptionsPrivate { rollover, ..local },
                },
            },
        }
    } else {
        LocalStep { result: Ok(false), took: false, local }
    }
}

/// The argument at `index`, if there is one.
pub open spec fn spec_arg(args: Seq<String>, index: int) -> Option<Seq<char>> {
    if 0 <= index < args.len() {
        Some(args[index]@)
    } else {
        None
    }
}

/// The argument at the cursor, if there is one; the cursor then moves on.
pub fn next_arg<'a>(args: &'a Vec<String>, next: &mut usize) -> (r: Option<&'a str>)
    ensures
        match spec_arg(args@, *old(next) as int) {
            Some(text) => r matches Some(s) && s@ == text && *final(next) == *old(next) + 1,
            None => r is None && *final(next) == *old(next),
        },
{
    if *next < args.len() {
        let s = args[*next].as_str();
        *next = *next + 1;
        Some(s)
    } else {
        None
    }
}

fn parse_rollover(text: &str) -> (r: Option<Rollover>)
    ensures
        r == spec_parse_rollover(text@),
{
    if str_eq(text, "n") {
        Some(Rollover::Forbidden)
    } else if str_eq(text, "0") {
        Some(Rollover::Enforce0)
    } else if str_eq(text, "1") {
        Some(Rollover::Enforce1)
    } else if str_eq(text, "x") {
        Some(Rollover::DontCare)
    } else {
        None
    }
}

/// Reads `arg` as a flag of the local options, taking its value, where
/// it has one, from `args` at the cursor `next`. Returns whether `arg` is
/// such a flag.
pub fn parse_local_args(
    arg: &str,
    args: &Vec<String>,
    next: &mut usize,
    opt_local: &mut OptionsPrivate,
) -> (r: Result<bool, ConfigError>)
    ensures
        ({
            let step = spec_parse_local_args(
                arg@,
                spec_arg(args@, *old(next) as int),
                *old(opt_local),
            );
            &&& r == step.result
            &&& *final(opt_local) == step.local
            &&& *final(next) == *old(next) + if step.took {
                1int
            } else {
                0int
            }
        }),
{
    if str_eq(arg, "--duplicate-packets") {
        match next_arg(args, next) {
            None => Err(ConfigError::MissingDuplicatePackets),
            Some(text) => match parse_below(text, 256) {
                None => Err(ConfigError::InvalidNumber),
                Some(count) => {
                    if count == 255 {
                        return Err(ConfigError::TooManyDuplicates);
                    }
                    opt_local.repeat_count = (count + 1) as u8;
                    Ok(true)
                },
            },
        }
    } else if str_eq(arg, "--keep-on-error") {
        opt_local.clean_on_error = false;
        Ok(true)
    } else if str_eq(arg, "-m") || str_eq(arg, "--maxretries") {
        match next_arg(args, next) {
            None => Err(ConfigError::MissingMaxRetries),
            Some(text) => {
                let number = parse_u64(text.as_bytes());
                match number {
                    Some(count) => {
                        if count <= usize::MAX as u64 {
                            opt_local.max_retries = count as usize;
                            Ok(true)
                        } else {
                            Err(ConfigError::InvalidNumber)
                        }
                    },
                    None => Err(ConfigError::InvalidNumber),
                }
            },
        }
    } else if str_eq(arg, "-R") || str_eq(arg, "--rollover") {
        match next_arg(args, next) {
            None => Err(ConfigError::MissingRollover),
            Some(text) => match parse_rollover(text) {
                None => Err(ConfigError::InvalidRollover),
                Some(rollover) => {
                    opt_local.rollover = rollover;
                    Ok(true)
                },
            },
        }
    } else {
        Ok(false)
    }
}

/// The settings of the server.
#[derive(Debug, PartialEq)]
pub struct Config {
    /// Address to listen on, as it was written
    pub ip_address: String,
    /// Port to listen on
    pub port: u16,
    /// Directory that is served
    pub directory: String,
    /// Directory that received files go to
    pub receive_directory: String,
    /// Directory that files are sent from
    pub send_directory: String,
    /// Whether every transfer shares the listening socket
    pub single_port: bool,
    /// Whether write requests are refused
    pub read_only: bool,
    /// Whether a write request may replace a file
    pub overwrite: bool,
    /// Local options handed to every transfer
    pub opt_local: OptionsPrivate,
    /// The `-v` flags less the `-q` flags, counted from 1
    pub verbosity: isize,
}

/// The settings of the server, as mathematical values.
pub struct ConfigView {
    pub ip_address: Seq<char>,
    pub port: u16,
    pub directory: Seq<char>,
    pub receive_directory: Seq<char>,
    pub send_directory: Seq<char>,
    pub single_port: bool,
    pub read_only: bool,
    pub overwrite: bool,
    pub opt_local: OptionsPrivate,
    pub verbosity: isize,
}

impl View for Config {
    type V = ConfigView;

    open spec fn view(&self) -> ConfigView {
        ConfigView {
            ip_address: self.ip_address@,
            port: self.port,
            directory: self.directory@,
            receive_directory: self.receive_directory@,
            send_directory: self.send_directory@,
            single_port: self.single_port,
            read_only: self.read_only,
            overwrite: self.overwrite,
            opt_local: self.opt_local,
            verbosity: self.verbosity,
        }
    }
}

/// One step up of a count of flags, held at the largest number.
pub open spec fn spec_louder(verbosity: isize) -> isize {
    if verbosity < isize::MAX {
        (verbosity + 1) as isize
    } else {
        verbosity
    }
}

/// One step down of a count of flags, held at the smallest number.
pub open spec fn spec_quieter(verbosity: isize) -> isize {
    if verbosity > isize::MIN {
        (verbosity - 1) as isize
    } else {
        verbosity
    }
}

/// The local options in force when none was set.
pub open spec fn spec_default_local() -> OptionsPrivate {
    OptionsPrivate {
        repeat_count: 1,
        clean_on_error: true,
        max_retries: crate::options::DEFAULT_MAX_RETRIES,
        rollover: Rollover::Enforce0,
    }
}

impl ConfigView {
    /// The settings in force when no argument changes them, for a server
    /// started in `directory`.
    pub open spec fn initial(directory: Seq<char>) -> ConfigView {
        ConfigView {
            ip_address: "127.0.0.1"@,
            port: 69,
            directory,
            receive_directory: Seq::<char>::empty(),
            send_directory: Seq::<char>::empty(),
            single_port: false,
            read_only: false,
            overwrite: false,
            opt_local: spec_default_local(),
            verbosity: 1,
        }
    }

    /// The settings after the argument at `pos` and its value, and the
    /// index of the argument to read next.
    pub open spec fn step(self, args: Seq<String>, pos: int) -> Result<(ConfigView, int), ConfigError> {
        let arg = args[pos]@;
        let value = spec_arg(args, pos + 1);
        if arg == "-i"@ || arg == "--ip-address"@ {
            match value {
                Some(text) => Ok((ConfigView { ip_address: text, ..self }, pos + 2)),
                None => Err(ConfigError::MissingIpAddress),
            }
        } else if arg == "-p"@ || arg == "--port"@ {
            match value {
                Some(text) => match spec_parse_below(text, 65536) {
                    Some(port) => Ok((ConfigView { port: port as u16, ..self }, pos + 2)),
                    None => Err(ConfigError::InvalidNumber),
                },
                None => Err(ConfigError::MissingPort),
            }
        } else if arg == "-d"@ || arg == "--directory"@ {
            match value {
                Some(text) => Ok((ConfigView { directory: text, ..self }, pos + 2)),
                None => Err(ConfigError::MissingDirectory),
            }
        } else if arg == "-rd"@ || arg == "--receive-directory"@ {
            match value {
                Some(text) => Ok((ConfigView { receive_directory: text, ..self }, pos + 2)),
                None => Err(ConfigError::MissingReceiveDirectory),
            }
        } else if arg == "-sd"@ || arg == "--send-directory"@ {
            match value {
                Some(text) => Ok((ConfigView { send_directory: text, ..self }, pos + 2)),
                None => Err(ConfigError::MissingSendDirectory),
            }
        } else if arg == "-s"@ || arg == "--single-port"@ {
            Ok((ConfigView { single_port: true, ..self }, pos + 1))
        } else if arg == "-r"@ || arg == "--read-only"@ {
            Ok((ConfigView { read_only: true, ..self }, pos + 1))
        } else if arg == "-h"@ || arg == "--help"@ {
            Err(ConfigError::Help)
        } else if arg == "--overwrite"@ {
            Ok((ConfigView { overwrite: true, ..self }, pos + 1))
        } else if arg == "-q"@ || arg == "--quiet"@ {
            Ok((ConfigView { verbosity: spec_quieter(self.verbosity), ..self }, pos + 1))
        } else if arg == "-v"@ || arg == "--verbose"@ {
            Ok((ConfigView { verbosity: spec_louder(self.verbosity), ..self }, pos + 1))
        } else if arg == "-V"@ || arg == "--version"@ {
            Err(ConfigError::Version)
        } else {
            let local = spec_parse_local_args(arg, value, self.opt_local);
            match local.result {
                Err(e) => Err(e),
                Ok(false) => Err(ConfigError::InvalidFlag { index: pos as usize }),
                Ok(true) => Ok(
                    (
                        ConfigView { opt_local: local.local, ..self },
                        pos + if local.took {
                            2int
                        } else {
                            1int
                        },
                    ),
                ),
            }
        }
    }

    /// The settings after every argument from `pos` on.
    pub open spec fn read(self, args: Seq<String>, pos: int) -> Result<ConfigView, ConfigError>
        decreases args.len() - pos,
    {
        if pos < 0 || pos >= args.len() {
            Ok(self)
        } else {
            match self.step(args, pos) {
                Err(e) => Err(e),
                Ok((next, at)) => if at > pos {
                    next.read(args, at)
                } else {
                    Ok(next)
                },
            }
        }
    }

    /// The settings with the directories for sending and receiving
    /// filled in: where none was given, the served directory.
    pub open spec fn finished(self) -> ConfigView {
        ConfigView {
            receive_directory: if self.receive_directory.len() == 0 {
                self.directory
            } else {
                self.receive_directory
            },
            send_directory: if self.send_directory.len() == 0 {
                self.directory
            } else {
                self.send_directory
            },
            ..self
        }
    }

    /// The settings that the arguments of the program ask for; the first
    /// argument, the name of the program, is passed over.
    pub open spec fn parse(args: Seq<String>, directory: Seq<char>) -> Result<ConfigView, ConfigError> {
        match Self::initial(directory).read(args, 1) {
            Ok(config) => Ok(config.finished()),
            Err(e) => Err(e),
        }
    }
}

/// The outcome of reading the arguments, as mathematical values.
pub open spec fn spec_config_outcome(r: Result<Config, ConfigError>) -> Result<
    ConfigView,
    ConfigError,
> {
    match r {
        Ok(config) => Ok(config@),
        Err(e) => Err(e),
    }
}

impl Config {
    /// The settings in force when no argument changes them, for a server
    /// started in `directory`.
    pub fn default_in(directory: String) -> (r: Config)
        ensures
            r@ == ConfigView::initial(directory@),
    {
        Config {
            ip_address: "127.0.0.1".to_owned(),
            port: 69,
            directory,
            receive_directory: String::new(),
            send_directory: String::new(),
            single_port: false,
            read_only: false,
            overwrite: false,
            opt_local: OptionsPrivate::default(),
            verbosity: 1,
        }
    }

    /// Reads the arguments of the server, for a server started in
    /// `directory`. A request for the help text or for the version comes
    /// back as an error of that name.
    pub fn new(args: &Vec<String>, directory: String) -> (r: Result<Config, ConfigError>)
        ensures
            spec_config_outcome(r) == ConfigView::parse(args@, directory@),
    {
        let mut config = Config::default_in(directory);
        let mut pos: usize = 1;
        let ghost goal = ConfigView::initial(directory@).read(args@, 1);
        while pos < args.len()
            invariant
                1 <= pos,
                goal == ConfigView::initial(directory@).read(args@, 1),
                goal == config@.read(args@, pos as int),
            decreases args@.len() - pos,
        {
            let arg = args[pos].as_str();
            let mut next: usize = pos + 1;
            let ghost before = config@;
            if str_eq(arg, "-i") || str_eq(arg, "--ip-address") {
                match next_arg(args, &mut next) {
                    Some(text) => {
                        config.ip_address = text.to_owned();
                    },
                    None => {
                        return Err(ConfigError::MissingIpAddress);
                    },
                }
            } else if str_eq(arg, "-p") || str_eq(arg, "--port") {
                match next_arg(args, &mut next) {
                    Some(text) => match parse_below(text, 65536) {
                        Some(port) => {
                            config.port = port as u16;
                        },
                        None => {
                            return Err(ConfigError::InvalidNumber);
                        },
                    },
                    None => {
                        return Err(ConfigError::MissingPort);
                    },
                }
            } else if str_eq(arg, "-d") || str_eq(arg, "--directory") {
                match next_arg(args, &mut next) {
                    Some(text) => {
                        config.directory = text.to_owned();
                    },
                    None => {
                        return Err(ConfigError::MissingDirectory);
                    },
                }
            } else if str_eq(arg, "-rd") || str_eq(arg, "--receive-directory") {
                match next_arg(args, &mut next) {
                    Some(text) => {
                        config.receive_directory = text.to_owned();
                    },
                    None => {
                        return Err(ConfigError::MissingReceiveDirectory);
                    },
                }
            } else if str_eq(arg, "-sd") || str_eq(arg, "--send-directory") {
                match next_arg(args, &mut next) {
                    Some(text) => {
                        config.send_directory = text.to_owned();
                    },
                    None => {
                        return Err(ConfigError::MissingSendDirectory);
                    },
                }
            } else if str_eq(arg, "-s") || str_eq(arg, "--single-port") {
                config.single_port = true;
            } else if str_eq(arg, "-r") || str_eq(arg, "--read-only") {
                config.read_only = true;
            } else if str_eq(arg, "-h") || str_eq(arg, "--help") {
                return Err(ConfigError::Help);
            } else if str_eq(arg, "--overwrite") {
                config.overwrite = true;
            } else if str_eq(arg, "-q") || str_eq(arg, "--quiet") {
                if config.verbosity > isize::MIN {
                    config.verbosity = config.verbosity - 1;
                }
            } else if str_eq(arg, "-v") || str_eq(arg, "--verbose") {
                if config.verbosity < isize::MAX {
                    config.verbosity = config.verbosity + 1;
                }
            } else if str_eq(arg, "-V") || str_eq(arg, "--version") {
                return Err(ConfigError::Version);
            } else {
                let mut local = config.opt_local;
                match parse_local_args(arg, args, &mut next, &mut local) {
                    Err(e) => {
                        return Err(e);
                    },
                    Ok(known) => {
                        if !known {
                            return Err(ConfigError::InvalidFlag { index: pos });
                        }
                        config.opt_local = local;
                    },
                }
            }
            assert(before.step(args@, pos as int) == Ok::<(ConfigView, int), ConfigError>(
                (config@, next as int),
            ));
            pos = next;
        }
        if config.receive_directory.as_str().is_empty() {
            config.receive_directory = config.directory.clone();
        }
        if config.send_directory.as_str().is_empty() {
            config.send_directory = config.directory.clone();
        }
        Ok(config)
    }
}

} // verus!
