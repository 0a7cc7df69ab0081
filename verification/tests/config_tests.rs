use tftpd::client_config::parse_duration;
use tftpd::{
    parse_local_args, ClientConfig, Config, ConfigError, Duration, Mode, OptionsPrivate, Rollover,
};

fn args(words: &[&str]) -> Vec<String> {
    words.iter().map(|s| s.to_string()).collect()
}

fn config(words: &[&str]) -> Result<Config, ConfigError> {
    Config::new(&args(words), "/start".to_string())
}

fn client(words: &[&str]) -> Result<ClientConfig, ConfigError> {
    ClientConfig::new(&args(words), '/')
}

#[test]
fn config_parses_full_config() {
    let config = config(&[
        "/",
        "-i",
        "0.0.0.0",
        "-p",
        "1234",
        "-d",
        "/",
        "-rd",
        "/",
        "-sd",
        "/",
        "-s",
        "-r",
        "--keep-on-error",
    ])
    .unwrap();

    assert_eq!(config.ip_address, "0.0.0.0");
    assert_eq!(config.port, 1234);
    assert_eq!(config.directory, "/");
    assert_eq!(config.receive_directory, "/");
    assert_eq!(config.send_directory, "/");
    assert!(!config.opt_local.clean_on_error);
    assert!(config.single_port);
    assert!(config.read_only);
}

#[test]
fn parses_config_with_ipv6() {
    let config = config(&["/", "-i", "0:0:0:0:0:0:0:0", "-p", "1234"]).unwrap();

    assert_eq!(config.ip_address, "0:0:0:0:0:0:0:0");
    assert_eq!(config.port, 1234);
}

#[test]
fn parses_some_config() {
    let config = config(&["/", "-i", "0.0.0.0", "-d", "/"]).unwrap();

    assert_eq!(config.ip_address, "0.0.0.0");
    assert_eq!(config.port, 69);
    assert_eq!(config.directory, "/");
}

#[test]
fn sets_receive_directory_to_directory() {
    let config = config(&["/", "-d", "/"]).unwrap();

    assert_eq!(config.receive_directory, "/");
}

#[test]
fn sets_send_directory_to_directory() {
    let config = config(&["/", "-d", "/"]).unwrap();

    assert_eq!(config.send_directory, "/");
}

#[test]
fn returns_error_on_invalid_port() {
    assert!(config(&["/", "-p", "1234567"]).is_err());
    assert_eq!(
        config(&["/", "-p", "1234567"]),
        Err(ConfigError::InvalidNumber)
    );
}

#[test]
fn returns_error_on_invalid_up_directory() {
    assert!(config(&["/", "-ud", "/this/does/not/exist"]).is_err());
    assert_eq!(
        config(&["/", "-ud", "/this/does/not/exist"]),
        Err(ConfigError::InvalidFlag { index: 1 })
    );
}

#[test]
fn returns_error_on_invalid_down_directory() {
    assert!(config(&["/", "-dd", "/this/does/not/exist"]).is_err());
    assert_eq!(
        config(&["/", "-dd", "/this/does/not/exist"]),
        Err(ConfigError::InvalidFlag { index: 1 })
    );
}

#[test]
fn returns_error_on_invalid_duplicate_packets() {
    assert!(config(&["/", "--duplicate-packets", "-1"]).is_err());
    assert_eq!(
        config(&["/", "--duplicate-packets", "-1"]),
        Err(ConfigError::InvalidNumber)
    );
}

#[test]
fn returns_error_on_max_duplicate_packets() {
    assert!(config(&["/", "--duplicate-packets", format!("{}", u8::MAX).as_str()]).is_err());
    assert_eq!(
        config(&["/", "--duplicate-packets", "255"]),
        Err(ConfigError::TooManyDuplicates)
    );
    assert_eq!(
        config(&["/", "--duplicate-packets", "256"]),
        Err(ConfigError::InvalidNumber)
    );
}

#[test]
fn initializes_duplicate_packets_as_zero() {
    let config = config(&["/"]).unwrap();

    assert_eq!(config.opt_local.repeat_count, 1);
}

#[test]
fn the_settings_without_arguments_are_the_defaults() {
    assert_eq!(
        config(&["tftpd"]),
        Ok(Config {
            ip_address: "127.0.0.1".to_string(),
            port: 69,
            directory: "/start".to_string(),
            receive_directory: "/start".to_string(),
            send_directory: "/start".to_string(),
            single_port: false,
            read_only: false,
            overwrite: false,
            opt_local: OptionsPrivate::default(),
            verbosity: 1,
        })
    );
    assert_eq!(config(&[]), config(&["tftpd"]));
    assert_eq!(
        OptionsPrivate::default(),
        OptionsPrivate {
            repeat_count: 1,
            clean_on_error: true,
            max_retries: 6,
            rollover: Rollover::Enforce0,
        }
    );
}

#[test]
fn the_directories_for_sending_and_receiving_can_differ() {
    let config = config(&["tftpd", "-rd", "/in", "--send-directory", "/out"]).unwrap();
    assert_eq!(config.directory, "/start");
    assert_eq!(config.receive_directory, "/in");
    assert_eq!(config.send_directory, "/out");
}

#[test]
fn the_long_flags_of_the_server_are_read() {
    let config = config(&[
        "tftpd",
        "--ip-address",
        "::1",
        "--port",
        "6969",
        "--directory",
        "/d",
        "--receive-directory",
        "/r",
        "--single-port",
        "--read-only",
        "--overwrite",
        "--maxretries",
        "9",
        "--rollover",
        "x",
        "--duplicate-packets",
        "2",
    ])
    .unwrap();
    assert_eq!(config.ip_address, "::1");
    assert_eq!(config.port, 6969);
    assert_eq!(config.directory, "/d");
    assert_eq!(config.receive_directory, "/r");
    assert_eq!(config.send_directory, "/d");
    assert!(config.single_port);
    assert!(config.read_only);
    assert!(config.overwrite);
    assert_eq!(config.opt_local.max_retries, 9);
    assert_eq!(config.opt_local.rollover, Rollover::DontCare);
    assert_eq!(config.opt_local.repeat_count, 3);
}

#[test]
fn the_flags_for_more_and_less_output_are_counted() {
    assert_eq!(config(&["tftpd", "-v", "-v", "--verbose"]).unwrap().verbosity, 4);
    assert_eq!(config(&["tftpd", "-q", "--quiet"]).unwrap().verbosity, -1);
    assert_eq!(config(&["tftpd", "-q", "-v"]).unwrap().verbosity, 1);
    assert_eq!(client(&["f", "-q"]).unwrap().verbosity, 0);
    assert_eq!(client(&["f", "-v"]).unwrap().verbosity, 2);
}

#[test]
fn a_flag_without_its_value_is_an_error() {
    assert_eq!(config(&["tftpd", "-i"]), Err(ConfigError::MissingIpAddress));
    assert_eq!(config(&["tftpd", "-p"]), Err(ConfigError::MissingPort));
    assert_eq!(config(&["tftpd", "-d"]), Err(ConfigError::MissingDirectory));
    assert_eq!(
        config(&["tftpd", "-rd"]),
        Err(ConfigError::MissingReceiveDirectory)
    );
    assert_eq!(
        config(&["tftpd", "-sd"]),
        Err(ConfigError::MissingSendDirectory)
    );
    assert_eq!(
        config(&["tftpd", "--duplicate-packets"]),
        Err(ConfigError::MissingDuplicatePackets)
    );
    assert_eq!(config(&["tftpd", "-m"]), Err(ConfigError::MissingMaxRetries));
    assert_eq!(config(&["tftpd", "-R"]), Err(ConfigError::MissingRollover));
    assert_eq!(client(&["f", "-b"]), Err(ConfigError::MissingBlocksize));
    assert_eq!(client(&["f", "-w"]), Err(ConfigError::MissingWindowsize));
    assert_eq!(client(&["f", "-W"]), Err(ConfigError::MissingDuration));
    assert_eq!(client(&["f", "-t"]), Err(ConfigError::MissingDuration));
    assert_eq!(client(&["f", "-T"]), Err(ConfigError::MissingDuration));
    assert_eq!(client(&["f", "-i"]), Err(ConfigError::MissingIpAddress));
    assert_eq!(client(&["f", "-p"]), Err(ConfigError::MissingPort));
    assert_eq!(
        client(&["f", "-rd"]),
        Err(ConfigError::MissingReceiveDirectory)
    );
}

#[test]
fn a_request_for_help_or_for_the_version_ends_the_reading() {
    assert_eq!(config(&["tftpd", "-h"]), Err(ConfigError::Help));
    assert_eq!(config(&["tftpd", "--help", "-p"]), Err(ConfigError::Help));
    assert_eq!(config(&["tftpd", "-V"]), Err(ConfigError::Version));
    assert_eq!(config(&["tftpd", "--version"]), Err(ConfigError::Version));
    assert_eq!(client(&["f", "-h"]), Err(ConfigError::Help));
    assert_eq!(client(&["-V"]), Err(ConfigError::Version));
    assert_eq!(config(&["tftpd", "-p", "x", "-h"]), Err(ConfigError::InvalidNumber));
}

#[test]
fn a_rollover_policy_is_one_of_four_letters() {
    assert_eq!(
        config(&["tftpd", "-R", "n"]).unwrap().opt_local.rollover,
        Rollover::Forbidden
    );
    assert_eq!(
        config(&["tftpd", "-R", "0"]).unwrap().opt_local.rollover,
        Rollover::Enforce0
    );
    assert_eq!(
        config(&["tftpd", "-R", "1"]).unwrap().opt_local.rollover,
        Rollover::Enforce1
    );
    assert_eq!(
        config(&["tftpd", "-R", "x"]).unwrap().opt_local.rollover,
        Rollover::DontCare
    );
    assert_eq!(config(&["tftpd", "-R", "2"]), Err(ConfigError::InvalidRollover));
    assert_eq!(config(&["tftpd", "-R", "nn"]), Err(ConfigError::InvalidRollover));
    assert_eq!(config(&["tftpd", "-R", ""]), Err(ConfigError::InvalidRollover));
}

#[test]
fn a_flag_of_the_local_options_takes_its_value_from_the_cursor() {
    let all = args(&["-m", "12", "--keep-on-error", "zzz"]);
    let mut local = OptionsPrivate::default();
    let mut next = 1usize;
    assert_eq!(parse_local_args("-m", &all, &mut next, &mut local), Ok(true));
    assert_eq!(next, 2);
    assert_eq!(local.max_retries, 12);
    next = 3;
    assert_eq!(
        parse_local_args("--keep-on-error", &all, &mut next, &mut local),
        Ok(true)
    );
    assert_eq!(next, 3);
    assert!(!local.clean_on_error);
    assert_eq!(
        parse_local_args("--unknown", &all, &mut next, &mut local),
        Ok(false)
    );
    assert_eq!(next, 3);
    assert_eq!(
        parse_local_args("-m", &all, &mut next, &mut local),
        Err(ConfigError::InvalidNumber)
    );
    assert_eq!(next, 4);
    assert_eq!(local.max_retries, 12);
    assert_eq!(
        parse_local_args("-R", &all, &mut next, &mut local),
        Err(ConfigError::MissingRollover)
    );
    assert_eq!(next, 4);
}

#[test]
fn client_config_parses_full_config() {
    let config = client(&[
        "test.file",
        "-i",
        "0.0.0.0",
        "-p",
        "1234",
        "-rd",
        "/",
        "-d",
        "-u",
        "-b",
        "1024",
        "-w",
        "2",
        "-W",
        "0.02",
        "-t",
        "4",
        "--keep-on-error",
    ])
    .unwrap();

    assert_eq!(config.remote_ip_address, "0.0.0.0");
    assert_eq!(config.port, 1234);
    assert_eq!(config.receive_directory, "/");
    assert_eq!(config.file_path, "test.file");
    assert_eq!(config.opt_common.window_size, 2);
    assert_eq!(config.opt_common.window_wait, Duration::from_millis(20));
    assert_eq!(config.opt_common.block_size, 1024);
    assert_eq!(config.mode, Mode::Upload);
    assert_eq!(config.opt_common.timeout, Duration::from_secs(4));
    assert!(!config.opt_local.clean_on_error);
}

#[test]
fn parses_partial_config() {
    let config = client(&["test.file", "-d", "-b", "2048", "-p", "2000"]).unwrap();

    assert_eq!(config.port, 2000);
    assert_eq!(config.file_path, "test.file");
    assert_eq!(config.opt_common.block_size, 2048);
    assert_eq!(config.mode, Mode::Download);
}

#[test]
fn parses_file_paths() {
    let config = client(&["test/test.file"]).unwrap();

    assert_eq!(config.file_path, "test/test.file");

    let config = client(&["test\\test\\test.file"]).unwrap();

    assert_eq!(config.file_path, "test/test/test.file");

    let config = ClientConfig::new(&args(&["test/test\\test.file"]), '\\').unwrap();

    assert_eq!(config.file_path, "test\\test\\test.file");
}

#[test]
fn the_client_wants_one_file_name() {
    assert_eq!(client(&[]), Err(ConfigError::MissingFilename));
    assert_eq!(client(&["-u"]), Err(ConfigError::MissingFilename));
    assert_eq!(client(&["a", "b"]), Err(ConfigError::TooManyArguments));
    assert_eq!(client(&["a", "-x"]), Err(ConfigError::TooManyArguments));
    assert_eq!(
        client(&["-x", "a"]),
        Err(ConfigError::InvalidFlag { index: 0 })
    );
    assert_eq!(client(&["--", "-x"]).unwrap().file_path, "-x");
    assert_eq!(client(&["-u", "--", "-u"]).unwrap().file_path, "-u");
    assert_eq!(
        client(&["--", "a", "b"]),
        Err(ConfigError::TooManyArguments)
    );
    assert_eq!(client(&["--"]), Err(ConfigError::MissingFilename));
}

#[test]
fn the_defaults_of_the_client() {
    let config = client(&["f"]).unwrap();
    let mut expected = ClientConfig::default();
    expected.file_path = "f".to_string();
    assert_eq!(config, expected);
    assert_eq!(config.remote_ip_address, "127.0.0.1");
    assert_eq!(config.port, 69);
    assert_eq!(config.mode, Mode::Download);
    assert_eq!(config.timeout_req, Duration::from_secs(5));
    assert_eq!(config.receive_directory, "");
    assert_eq!(config.verbosity, 1);
}

#[test]
fn the_numbers_of_the_client_must_fit() {
    assert_eq!(client(&["f", "-b", "65536"]), Err(ConfigError::InvalidNumber));
    assert_eq!(client(&["f", "-b", "65535"]).unwrap().opt_common.block_size, 65535);
    assert_eq!(client(&["f", "-w", "70000"]), Err(ConfigError::InvalidNumber));
    assert_eq!(client(&["f", "-w", "abc"]), Err(ConfigError::InvalidNumber));
    assert_eq!(client(&["f", "-p", ""]), Err(ConfigError::InvalidNumber));
    assert_eq!(client(&["f", "-p", "+80"]).unwrap().port, 80);
}

#[test]
fn the_durations_of_the_client_are_read_as_seconds() {
    let config = client(&["f", "-t", "1.5", "-T", "0.25", "--windowwait", "0.001"]).unwrap();
    assert_eq!(config.opt_common.timeout, Duration::from_millis(1500));
    assert_eq!(config.timeout_req, Duration::from_millis(250));
    assert_eq!(config.opt_common.window_wait, Duration::from_millis(1));
    assert_eq!(client(&["f", "-t", "0"]), Err(ConfigError::DurationTooShort));
    assert_eq!(client(&["f", "-t", "256"]), Err(ConfigError::DurationTooLong));
    assert_eq!(client(&["f", "-t", "soon"]), Err(ConfigError::InvalidDuration));
}

#[test]
fn a_duration_is_seconds_in_decimal() {
    assert_eq!(parse_duration("1"), Ok(Duration::from_secs(1)));
    assert_eq!(parse_duration("4"), Ok(Duration::from_millis(4000)));
    assert_eq!(parse_duration("0.02"), Ok(Duration::from_millis(20)));
    assert_eq!(parse_duration("0.5"), Ok(Duration::from_millis(500)));
    assert_eq!(parse_duration(".5"), Ok(Duration::from_millis(500)));
    assert_eq!(parse_duration("5."), Ok(Duration::from_secs(5)));
    assert_eq!(parse_duration("12.345"), Ok(Duration::from_millis(12345)));
    assert_eq!(parse_duration("12.3456789"), Ok(Duration::from_millis(12345)));
    assert_eq!(parse_duration("0012.5"), Ok(Duration::from_millis(12500)));
    assert_eq!(parse_duration("0.001"), Ok(Duration::from_millis(1)));
    assert_eq!(parse_duration("255"), Ok(Duration::from_secs(255)));
    assert_eq!(parse_duration("255.000"), Ok(Duration::from_secs(255)));
    assert_eq!(parse_duration("254.999"), Ok(Duration::from_millis(254999)));
}

#[test]
fn a_duration_out_of_range_is_refused() {
    assert_eq!(parse_duration("0"), Err(ConfigError::DurationTooShort));
    assert_eq!(parse_duration("0.0009"), Err(ConfigError::DurationTooShort));
    assert_eq!(parse_duration("0.000"), Err(ConfigError::DurationTooShort));
    assert_eq!(parse_duration("255.0001"), Err(ConfigError::DurationTooLong));
    assert_eq!(parse_duration("255.001"), Err(ConfigError::DurationTooLong));
    assert_eq!(parse_duration("256"), Err(ConfigError::DurationTooLong));
    assert_eq!(
        parse_duration("99999999999999999999999999999"),
        Err(ConfigError::DurationTooLong)
    );
}

#[test]
fn a_text_that_is_no_number_is_no_duration() {
    assert_eq!(parse_duration(""), Err(ConfigError::InvalidDuration));
    assert_eq!(parse_duration("."), Err(ConfigError::InvalidDuration));
    assert_eq!(parse_duration("1.2.3"), Err(ConfigError::InvalidDuration));
    assert_eq!(parse_duration("-1"), Err(ConfigError::InvalidDuration));
    assert_eq!(parse_duration("1s"), Err(ConfigError::InvalidDuration));
    assert_eq!(parse_duration(" 1"), Err(ConfigError::InvalidDuration));
    assert_eq!(parse_duration("1e3"), Err(ConfigError::InvalidDuration));
    assert_eq!(parse_duration("²"), Err(ConfigError::InvalidDuration));
}
