use gremp::decimal_string;
use gremp::run;
use gremp::Config;
use gremp::ConfigError;

#[test]
fn it_parses_cli_arguments() {
    let args = vec![String::from("/path/to/binary")];

    let result = Config::new(args, true);
    assert!(result.is_err(), "Missing all arguments");

    let args = vec![String::from("/path/to/binary"), String::from("pattern_here")];

    let result = Config::new(args, true);
    assert!(result.is_err(), "Missing file argument");
}

#[test]
fn it_creates_a_config() {
    let args = vec![
        String::from("/path/to/binary"),
        String::from("pattern"),
        String::from("filename"),
    ];

    let result = Config::new(args, true);
    assert!(result.is_ok(), "Should have accepted configuration");
}

#[test]
fn missing_pattern_is_reported() {
    let result = Config::new(Vec::new(), true);
    assert_eq!(result.err(), Some(ConfigError::MissingPattern));
    assert_eq!(ConfigError::MissingPattern.message(), "missing pattern");
}

#[test]
fn missing_filename_is_reported() {
    let args = vec![String::from("/path/to/binary"), String::from("pattern")];
    let result = Config::new(args, false);
    assert_eq!(result.err(), Some(ConfigError::MissingFilename));
    assert_eq!(ConfigError::MissingFilename.message(), "missing filename");
}

#[test]
fn config_keeps_the_resolved_fields() {
    let args = vec![
        String::from("/path/to/binary"),
        String::from("needle"),
        String::from("haystack.txt"),
    ];
    let config = Config::new(args, false).unwrap();
    assert_eq!(config.pattern, "needle");
    assert_eq!(config.filename, "haystack.txt");
    assert!(!config.case_sensitive);
}

#[test]
fn decimal_rendering_is_exact() {
    assert_eq!(decimal_string(0), "0");
    assert_eq!(decimal_string(7), "7");
    assert_eq!(decimal_string(10), "10");
    assert_eq!(decimal_string(12345), "12345");
}

#[test]
fn run_renders_case_sensitive_matches() {
    let config = Config {
        pattern: String::from("duct"),
        filename: String::from("unused.txt"),
        case_sensitive: true,
    };
    let contents = "Rust:\nSafe, fast, productive.\nPick three.\nDuct tape.";
    assert_eq!(run(&config, contents), vec![String::from("2. Safe, fast, productive.")]);
}

#[test]
fn run_renders_case_insensitive_matches() {
    let config = Config {
        pattern: String::from("rUsT"),
        filename: String::from("unused.txt"),
        case_sensitive: false,
    };
    let contents = "Rust:\nSafe, fast, productive.\nPick three.\nTrust me.";
    assert_eq!(
        run(&config, contents),
        vec![String::from("1. Rust:"), String::from("4. Trust me.")]
    );
}

#[test]
fn run_emits_nothing_without_matches() {
    let config = Config {
        pattern: String::from("absent"),
        filename: String::from("unused.txt"),
        case_sensitive: true,
    };
    assert_eq!(run(&config, "one\ntwo"), Vec::<String>::new());
}

#[test]
fn run_renders_multi_digit_line_numbers() {
    let config = Config {
        pattern: String::from("end"),
        filename: String::from("unused.txt"),
        case_sensitive: true,
    };
    let contents = "a\nb\nc\nd\ne\nf\ng\nh\ni\nj\nk\nthe end";
    assert_eq!(run(&config, contents), vec![String::from("12. the end")]);
}
