use crate::client::Mode;
use crate::config::next_arg;
use crate::config::parse_below;
use crate::config::parse_local_args;
use crate::config::spec_arg;
use crate::config::spec_default_local;
use crate::config::spec_louder;
use crate::config::spec_parse_below;
use crate::config::spec_parse_local_args;
use crate::config::spec_quieter;
use crate::config::ConfigError;
use crate::decimal::is_digit;
use crate::options::Duration;
use crate::options::OptionsPrivate;
use crate::options::OptionsProtocol;
use crate::options::MAX_TIMEOUT_MILLIS;
use crate::path::convert_file_path_abs_with;
use crate::path::spec_convert_file_path_abs;
use crate::path::spec_is_separator;
use crate::text::str_eq;
use vstd::prelude::*;
use vstd::string::StrSliceExecFns;
use vstd::string::StringSliceAdditionalSpecFns;
use vstd::utf8::encode_utf8;

verus! {

/// The thousandths of a second that `text`, a number of seconds written
/// in decimal, comes to: its digits before `dot` as seconds, and the
/// first three digits after `dot` as thousandths.
pub open spec fn spec_seconds_millis(text: Seq<u8>, dot: int, upto: int) -> int
    decreases upto,
{
    if upto <= 0 {
        0
    } else {
        let i = upto - 1;
        let before = spec_seconds_millis(text, dot, i);
        let digit = text[i] - 48;
        if i < dot {
            before * 10 + digit * 1000
        } else if i == dot + 1 {
            before + digit * 100
        } else if i == dot + 2 {
            before + digit * 10
        } else if i == dot + 3 {
            before + digit
        } else {
            before
        }
    }
}

/// Index of the first point of `text`, or its length when there is none.
pub open spec fn spec_find_dot(text: Seq<u8>) -> int
    decreases text.len(),
{
    if text.len() == 0 || text[0] == 46 {
        0
    } else {
        1 + spec_find_dot(text.drop_first())
    }
}

/// Whether `text` is a number of seconds written in decimal: digits,
/// with at most one point among them, and at least one digit.
pub open spec fn spec_is_seconds(text: Seq<u8>) -> bool {
    let dot = spec_find_dot(text);
    &&& text.len() >= 1
    &&& !(text.len() == 1 && dot == 0)
    &&& forall|i: int| 0 <= i < text.len() && i != dot ==> is_digit(#[trigger] text[i])
}

/// Whether `text` holds a digit other than 0 beyond the thousandths.
pub open spec fn spec_has_finer(text: Seq<u8>, dot: int) -> bool {
    exists|i: int| dot + 3 < i < text.len() && #[trigger] text[i] != 48
}

/// The duration that `text` writes as seconds in decimal, cut to whole
/// milliseconds; an error for a text that is no such number, for less
/// than a millisecond and for more than 255 seconds.
pub open spec fn spec_parse_duration(text: Seq<u8>) -> Result<Duration, ConfigError> {
    let dot = spec_find_dot(text);
    let millis = spec_seconds_millis(text, dot, text.len() as int);
    if !spec_is_seconds(text) {
        Err(ConfigError::InvalidDuration)
    } else if millis < 1 {
        Err(ConfigError::DurationTooShort)
    } else if millis > MAX_TIMEOUT_MILLIS || (millis == MAX_TIMEOUT_MILLIS && spec_has_finer(
        text,
        dot,
    )) {
        Err(ConfigError::DurationTooLong)
    } else {
        Ok(Duration::spec_from_millis(millis as u64))
    }
}

/// The first point of a text lies within it, and nothing before it is a
/// point.
proof fn lemma_find_dot(text: Seq<u8>, at: int)
    requires
        0 <= at <= text.len(),
        at < text.len() ==> text[at] == 46,
        forall|j: int| 0 <= j < at ==> text[j] != 46,
    ensures
        spec_find_dot(text) == at,
    decreases text.len(),
{
    if at > 0 {
        let rest = text.drop_first();
        assert(text[0] != 46);
        assert forall|j: int| 0 <= j < at - 1 implies rest[j] != 46 by {
            assert(rest[j] == text[j + 1]);
        }
        if at - 1 < rest.len() {
            assert(rest[at - 1] == text[at]);
        }
        lemma_find_dot(rest, at - 1);
    }
}

/// Reads a duration written as seconds in decimal.
pub fn parse_duration(text: &str) -> (r: Result<Duration, ConfigError>)
    ensures
        r == spec_parse_duration(encode_utf8(text@)),
{
    let bytes = text.as_bytes();
    let n: usize = bytes.len();
    let mut dot: usize = 0;
    while dot < n && bytes[dot] != 46
        invariant
            dot <= n,
            n == bytes@.len(),
            forall|j: int| 0 <= j < dot ==> bytes@[j] != 46,
        decreases n - dot,
    {
        dot += 1;
    }
    proof {
        lemma_find_dot(bytes@, dot as int);
    }
    if n == 0 || (n == 1 && dot == 0) {
        return Err(ConfigError::InvalidDuration);
    }
    let limit: u64 = 1_000_000_000;
    let mut millis: u64 = 0;
    let mut finer: bool = false;
    let mut i: usize = 0;
    while i < n
        invariant
            i <= n,
            dot <= n,
            n == bytes@.len(),
            n >= 1,
            !(n == 1 && dot == 0),
            bytes@ == encode_utf8(text@),
            dot as int == spec_find_dot(bytes@),
            dot < n ==> bytes@[dot as int] == 46,
            limit == 1_000_000_000,
            forall|j: int| 0 <= j < i && j != dot ==> is_digit(#[trigger] bytes@[j]),
            millis <= limit,
            millis == if spec_seconds_millis(bytes@, dot as int, i as int) < limit {
                spec_seconds_millis(bytes@, dot as int, i as int)
            } else {
                limit as int
            },
            finer == exists|j: int| dot + 3 < j < i && #[trigger] bytes@[j] != 48,
        decreases n - i,
    {
        if i != dot {
            let byte: u8 = bytes[i];
            if byte < 48 || byte > 57 {
                assert(!is_digit(bytes@[i as int]));
                return Err(ConfigError::InvalidDuration);
            }
            let digit: u64 = (byte - 48) as u64;
            if i < dot {
                let grown: u64 = millis * 10 + digit * 1000;
                millis = if grown < limit {
                    grown
                } else {
                    limit
                };
            } else if i == dot + 1 {
                let grown: u64 = millis + digit * 100;
                millis = if grown < limit {
                    grown
                } else {
                    limit
                };
            } else if i == dot + 2 {
                let grown: u64 = millis + digit * 10;
                millis = if grown < limit {
                    grown
                } else {
                    limit
                };
            } else if i == dot + 3 {
                let grown: u64 = millis + digit;
                millis = if grown < limit {
                    grown
                } else {
                    limit
                };
            } else {
                if byte != 48 {
                    finer = true;
                }
            }
        }
        i += 1;
    }
    assert(spec_is_seconds(bytes@));
    assert(finer == spec_has_finer(bytes@, dot as int));
    if millis < 1 {
        Err(ConfigError::DurationTooShort)
    } else if millis > MAX_TIMEOUT_MILLIS || (millis == MAX_TIMEOUT_MILLIS && finer) {
        Err(ConfigError::DurationTooLong)
    } else {
        Ok(Duration::from_millis(millis))
    }
}

/// The settings of the client.
#[derive(Debug, PartialEq)]
pub struct ClientConfig {
    /// Address of the server, as it was written
    pub remote_ip_address: String,
    /// Port of the server
    pub port: u16,
    /// How long to wait for the answer to the request
    pub timeout_req: Duration,
    /// What to do with the file
    pub mode: Mode,
    /// Directory that a fetched file goes to
    pub receive_directory: String,
    /// The file to send or to fetch
    pub file_path: String,
    /// Local options
    pub opt_local: OptionsPrivate,
    /// Options to offer to the server
    pub opt_common: OptionsProtocol,
    /// The `-v` flags less the `-q` flags, counted from 1
    pub verbosity: isize,
}

/// The settings of the client, as mathematical values.
pub struct ClientConfigView {
    pub remote_ip_address: Seq<char>,
    pub port: u16,
    pub timeout_req: Duration,
    pub mode: Mode,
    pub receive_directory: Seq<char>,
    pub file_path: Seq<char>,
    pub opt_local: OptionsPrivate,
    pub opt_common: OptionsProtocol,
    pub verbosity: isize,
}

impl View for ClientConfig {
    type V = ClientConfigView;

    open spec fn view(&self) -> ClientConfigView {
        ClientConfigView {
            remote_ip_address: self.remote_ip_address@,
            port: self.port,
            timeout_req: self.timeout_req,
            mode: self.mode,
            receive_directory: self.receive_directory@,
            file_path: self.file_path@,
            opt_local: self.opt_local,
            opt_common: self.opt_common,
            verbosity: self.verbosity,
        }
    }
}

/// The duration that the argument `value` writes, where there is one.
pub open spec fn spec_duration_arg(value: Option<Seq<char>>) -> Result<Duration, ConfigError> {
    match value {
        Some(text) => spec_parse_duration(encode_utf8(text)),
        None => Err(ConfigError::MissingDuration),
    }
}

impl ClientConfigView {
    /// The settings in force when no argument changes them.
    pub open spec fn initial() -> ClientConfigView {
        ClientConfigView {
            remote_ip_address: "127.0.0.1"@,
            port: 69,
            timeout_req: Duration::spec_from_secs(crate::options::DEFAULT_TIMEOUT_SECS),
            mode: Mode::Download,
            receive_directory: Seq::<char>::empty(),
            file_path: Seq::<char>::empty(),
            opt_local: spec_default_local(),
            opt_common: OptionsProtocol::spec_default(),
            verbosity: 1,
        }
    }

    /// The settings with the argument `name` taken as the file to send or
    /// to fetch; an error where a file was named before.
    pub open spec fn named(self, name: Seq<char>, separator: char) -> Result<
        ClientConfigView,
        ConfigError,
    > {
        if self.file_path.len() != 0 {
            Err(ConfigError::TooManyArguments)
        } else {
            Ok(ClientConfigView { file_path: spec_convert_file_path_abs(name, separator), ..self })
        }
    }

    /// The settings after every argument from `pos` on is taken as a
    /// file name, as after `--`.
    pub open spec fn names(self, args: Seq<String>, pos: int, separator: char) -> Result<
        ClientConfigView,
        ConfigError,
    >
        decreases args.len() - pos,
    {
        if pos < 0 || pos >= args.len() {
            Ok(self)
        } else {
            match self.named(args[pos]@, separator) {
                Err(e) => Err(e),
                Ok(next) => next.names(args, pos + 1, separator),
            }
        }
    }

    /// The settings after the argument at `pos` and its value, and the
    /// index of the argument to read next.
    pub open spec fn step(self, args: Seq<String>, pos: int, separator: char) -> Result<
        (ClientConfigView, int),
        ConfigError,
    > {
        let arg = args[pos]@;
        let value = spec_arg(args, pos + 1);
        if arg == "-i"@ || arg == "--ip-address"@ {
            match value {
                Some(text) => Ok((ClientConfigView { remote_ip_address: text, ..self }, pos + 2)),
                None => Err(ConfigError::MissingIpAddress),
            }
        } else if arg == "-p"@ || arg == "--port"@ {
            match value {
                Some(text) => match spec_parse_below(text, 65536) {
                    Some(port) => Ok((ClientConfigView { port: port as u16, ..self }, pos + 2)),
                    None => Err(ConfigError::InvalidNumber),
                },
                None => Err(ConfigError::MissingPort),
            }
        } else if arg == "-b"@ || arg == "--blocksize"@ {
            match value {
                Some(text) => match spec_parse_below(text, 65536) {
                    Some(size) => Ok(
                        (
                            ClientConfigView {
                                opt_common: OptionsProtocol {
                                    block_size: size as u16,
                                    ..self.opt_common
                                },
                                ..self
                            },
                            pos + 2,
                        ),
                    ),
                    None => Err(ConfigError::InvalidNumber),
                },
                None => Err(ConfigError::MissingBlocksize),
            }
        } else if arg == "-w"@ || arg == "--windowsize"@ {
            match value {
                Some(text) => match spec_parse_below(text, 65536) {
                    Some(size) => Ok(
                        (
                            ClientConfigView {
                                opt_common: OptionsProtocol {
                                    window_size: size as u16,
                                    ..self.opt_common
                                },
                                ..self
                            },
                            pos + 2,
                        ),
                    ),
                    None => Err(ConfigError::InvalidNumber),
                },
                None => Err(ConfigError::MissingWindowsize),
            }
        } else if arg == "-W"@ || arg == "--windowwait"@ {
            match spec_duration_arg(value) {
                Ok(span) => Ok(
                    (
                        ClientConfigView {
                            opt_common: OptionsProtocol { window_wait: span, ..self.opt_common },
                            ..self
                        },
                        pos + 2,
                    ),
                ),
                Err(e) => Err(e),
            }
        } else if arg == "-t"@ || arg == "--timeout"@ {
            match spec_duration_arg(value) {
                Ok(span) => Ok(
                    (
                        ClientConfigView {
                            opt_common: OptionsProtocol { timeout: span, ..self.opt_common },
                            ..self
                        },
                        pos + 2,
                    ),
                ),
                Err(e) => Err(e),
            }
        } else if arg == "-T"@ || arg == "--timeout-req"@ {
            match spec_duration_arg(value) {
                Ok(span) => Ok((ClientConfigView { timeout_req: span, ..self }, pos + 2)),
                Err(e) => Err(e),
            }
        } else if arg == "-rd"@ || arg == "--receive-directory"@ {
            match value {
                Some(text) => Ok((ClientConfigView { receive_directory: text, ..self }, pos + 2)),
                None => Err(ConfigError::MissingReceiveDirectory),
            }
        } else if arg == "-u"@ || arg == "--upload"@ {
            Ok((ClientConfigView { mode: Mode::Upload, ..self }, pos + 1))
        } else if arg == "-d"@ || arg == "--download"@ {
            Ok((ClientConfigView { mode: Mode::Download, ..self }, pos + 1))
        } else if arg == "-h"@ || arg == "--help"@ {
            Err(ConfigError::Help)
        } else if arg == "-q"@ || arg == "--quiet"@ {
            Ok((ClientConfigView { verbosity: spec_quieter(self.verbosity), ..self }, pos + 1))
        } else if arg == "-v"@ || arg == "--verbose"@ {
            Ok((ClientConfigView { verbosity: spec_louder(self.verbosity), ..self }, pos + 1))
        } else if arg == "-V"@ || arg == "--version"@ {
            Err(ConfigError::Version)
        } else if arg == "--"@ {
            match self.names(args, pos + 1, separator) {
                Ok(next) => Ok((next, args.len() as int)),
                Err(e) => Err(e),
            }
        } else {
            let local = spec_parse_local_args(arg, value, self.opt_local);
            match local.result {
                Err(e) => Err(e),
                Ok(true) => Ok(
                    (
                        ClientConfigView { opt_local: local.local, ..self },
                        pos + if local.took {
                            2int
                        } else {
                            1int
                        },
                    ),
                ),
                Ok(false) => if self.file_path.len() != 0 {
                    Err(ConfigError::TooManyArguments)
                } else if arg.len() > 0 && arg[0] == '-' {
                    Err(ConfigError::InvalidFlag { index: pos as usize })
                } else {
                    match self.named(arg, separator) {
                        Ok(next) => Ok((next, pos + 1)),
                        Err(e) => Err(e),
                    }
                },
            }
        }
    }

    /// The settings after every argument from `pos` on.
    pub open spec fn read(self, args: Seq<String>, pos: int, separator: char) -> Result<
        ClientConfigView,
        ConfigError,
    >
        decreases args.len() - pos,
    {
        if pos < 0 || pos >= args.len() {
            Ok(self)
        } else {
            match self.step(args, pos, separator) {
                Err(e) => Err(e),
                Ok((next, at)) => if at > pos {
                    next.read(args, at, separator)
                } else {
                    Ok(next)
                },
            }
        }
    }

    /// The settings that the arguments ask for; an error where no file
    /// is named.
    pub open spec fn parse(args: Seq<String>, separator: char) -> Result<
        ClientConfigView,
        ConfigError,
    > {
        match Self::initial().read(args, 0, separator) {
            Ok(config) => if config.file_path.len() == 0 {
                Err(ConfigError::MissingFilename)
            } else {
                Ok(config)
            },
            Err(e) => Err(e),
        }
    }
}

/// The outcome of reading the arguments, as mathematical values.
pub open spec fn spec_client_config_outcome(r: Result<ClientConfig, ConfigError>) -> Result<
    ClientConfigView,
    ConfigError,
> {
    match r {
        Ok(config) => Ok(config@),
        Err(e) => Err(e),
    }
}

impl ClientConfig {
    fn duration_arg(args: &Vec<String>, next: &mut usize) -> (r: Result<Duration, ConfigError>)
        ensures
            r == spec_duration_arg(spec_arg(args@, *old(next) as int)),
            r is Ok ==> *final(next) == *old(next) + 1,
    {
        match next_arg(args, next) {
            Some(text) => parse_duration(text),
            None => Err(ConfigError::MissingDuration),
        }
    }

    fn name(&mut self, name: &str, separator: char) -> (r: Result<(), ConfigError>)
        requires
            spec_is_separator(separator),
        ensures
            match old(self)@.named(name@, separator) {
                Ok(next) => r is Ok && final(self)@ == next,
                Err(e) => r == Err::<(), ConfigError>(e) && final(self)@ == old(self)@,
            },
    {
        if !self.file_path.as_str().is_empty() {
            return Err(ConfigError::TooManyArguments);
        }
        self.file_path = convert_file_path_abs_with(name, separator);
        Ok(())
    }

    /// The settings in force when no argument changes them.
    pub fn default() -> (r: ClientConfig)
        ensures
            r@ == ClientConfigView::initial(),
    {
        ClientConfig {
            remote_ip_address: "127.0.0.1".to_owned(),
            port: 69,
            timeout_req: Duration::from_secs(crate::options::DEFAULT_TIMEOUT_SECS),
            mode: Mode::Download,
            receive_directory: String::new(),
            file_path: String::new(),
            opt_local: OptionsPrivate::default(),
            opt_common: OptionsProtocol::default(),
            verbosity: 1,
        }
    }

    fn names(&mut self, args: &Vec<String>, from: usize, separator: char) -> (r: Result<
        (),
        ConfigError,
    >)
        requires
            spec_is_separator(separator),
        ensures
            match old(self)@.names(args@, from as int, separator) {
                Ok(next) => r is Ok && final(self)@ == next,
                Err(e) => r == Err::<(), ConfigError>(e),
            },
    {
        let mut next: usize = from;
        let ghost all = self@.names(args@, from as int, separator);
        while next < args.len()
            invariant
                spec_is_separator(separator),
                all == old(self)@.names(args@, from as int, separator),
                all == self@.names(args@, next as int, separator),
            decreases args@.len() - next,
        {
            match self.name(args[next].as_str(), separator) {
                Ok(_) => {},
                Err(e) => {
                    return Err(e);
                },
            }
            next += 1;
        }
        Ok(())
    }

    #[verifier::rlimit(50)]
    fn step(&mut self, args: &Vec<String>, pos: usize, separator: char) -> (r: Result<
        usize,
        ConfigError,
    >)
        requires
            spec_is_separator(separator),
            pos < args@.len(),
        ensures
            match old(self)@.step(args@, pos as int, separator) {
                Ok((next, at)) => r == Ok::<usize, ConfigError>(at as usize) && final(self)@ == next
                    && pos < at <= args@.len() + 1,
                Err(e) => r == Err::<usize, ConfigError>(e),
            },
    {
        let count: usize = args.len();
        let arg = args[pos].as_str();
        let mut next: usize = pos + 1;
        if str_eq(arg, "-i") || str_eq(arg, "--ip-address") {
            match next_arg(args, &mut next) {
                Some(text) => {
                    self.remote_ip_address = text.to_owned();
                },
                None => {
                    return Err(ConfigError::MissingIpAddress);
                },
            }
        } else if str_eq(arg, "-p") || str_eq(arg, "--port") {
            match next_arg(args, &mut next) {
                Some(text) => match parse_below(text, 65536) {
                    Some(port) => {
                        self.port = port as u16;
                    },
                    None => {
                        return Err(ConfigError::InvalidNumber);
                    },
                },
                None => {
                    return Err(ConfigError::MissingPort);
                },
            }
        } else if str_eq(arg, "-b") || str_eq(arg, "--blocksize") {
            match next_arg(args, &mut next) {
                Some(text) => match parse_below(text, 65536) {
                    Some(size) => {
                        self.opt_common.block_size = size as u16;
                    },
                    None => {
                        return Err(ConfigError::InvalidNumber);
                    },
                },
                None => {
                    return Err(ConfigError::MissingBlocksize);
                },
            }
        } else if str_eq(arg, "-w") || str_eq(arg, "--windowsize") {
            match next_arg(args, &mut next) {
                Some(text) => match parse_below(text, 65536) {
                    Some(size) => {
                        self.opt_common.window_size = size as u16;
                    },
                    None => {
                        return Err(ConfigError::InvalidNumber);
                    },
                },
                None => {
                    return Err(ConfigError::MissingWindowsize);
                },
            }
        } else if str_eq(arg, "-W") || str_eq(arg, "--windowwait") {
            match Self::duration_arg(args, &mut next) {
                Ok(span) => {
                    self.opt_common.window_wait = span;
                },
                Err(e) => {
                    return Err(e);
                },
            }
        } else if str_eq(arg, "-t") || str_eq(arg, "--timeout") {
            match Self::duration_arg(args, &mut next) {
                Ok(span) => {
                    self.opt_common.timeout = span;
                },
                Err(e) => {
                    return Err(e);
                },
            }
        } else if str_eq(arg, "-T") || str_eq(arg, "--timeout-req") {
            match Self::duration_arg(args, &mut next) {
                Ok(span) => {
                    self.timeout_req = span;
                },
                Err(e) => {
                    return Err(e);
                },
            }
        } else if str_eq(arg, "-rd") || str_eq(arg, "--receive-directory") {
            match next_arg(args, &mut next) {
                Some(text) => {
                    self.receive_directory = text.to_owned();
                },
                None => {
                    return Err(ConfigError::MissingReceiveDirectory);
                },
            }
        } else if str_eq(arg, "-u") || str_eq(arg, "--upload") {
            self.mode = Mode::Upload;
        } else if str_eq(arg, "-d") || str_eq(arg, "--download") {
            self.mode = Mode::Download;
        } else if str_eq(arg, "-h") || str_eq(arg, "--help") {
            return Err(ConfigError::Help);
        } else if str_eq(arg, "-q") || str_eq(arg, "--quiet") {
            if self.verbosity > isize::MIN {
                self.verbosity = self.verbosity - 1;
            }
        } else if str_eq(arg, "-v") || str_eq(arg, "--verbose") {
            if self.verbosity < isize::MAX {
                self.verbosity = self.verbosity + 1;
            }
        } else if str_eq(arg, "-V") || str_eq(arg, "--version") {
            return Err(ConfigError::Version);
        } else if str_eq(arg, "--") {
            match self.names(args, pos + 1, separator) {
                Ok(_) => {
                    next = args.len();
                },
                Err(e) => {
                    return Err(e);
                },
            }
        } else {
            let mut local = self.opt_local;
            match parse_local_args(arg, args, &mut next, &mut local) {
                Err(e) => {
                    return Err(e);
                },
                Ok(known) => {
                    if known {
                        self.opt_local = local;
                    } else {
                        if !self.file_path.as_str().is_empty() {
                            return Err(ConfigError::TooManyArguments);
                        }
                        if arg.unicode_len() > 0 && arg.get_char(0) == '-' {
                            return Err(ConfigError::InvalidFlag { index: pos });
                        }
                        match self.name(arg, separator) {
                            Ok(_) => {},
                            Err(e) => {
                                return Err(e);
                            },
                        }
                    }
                },
            }
        }
        Ok(next)
    }

    /// Reads the arguments of the client on a host with the given
    /// separator of directories. A request for the help text or for the
    /// version comes back as an error of that name.
    pub fn new(args: &Vec<String>, separator: char) -> (r: Result<ClientConfig, ConfigError>)
        requires
            spec_is_separator(separator),
        ensures
            spec_client_config_outcome(r) == ClientConfigView::parse(args@, separator),
    {
        let mut config = ClientConfig::default();
        let mut pos: usize = 0;
        let ghost goal = ClientConfigView::initial().read(args@, 0, separator);
        while pos < args.len()
            invariant
                spec_is_separator(separator),
                goal == ClientConfigView::initial().read(args@, 0, separator),
                goal == config@.read(args@, pos as int, separator),
            decreases args@.len() - pos,
        {
            match config.step(args, pos, separator) {
                Ok(next) => {
                    pos = next;
                },
                Err(e) => {
                    return Err(e);
                },
            }
        }
        if config.file_path.as_str().is_empty() {
            return Err(ConfigError::MissingFilename);
        }
        Ok(config)
    }
}

} // verus!
