use cli_option_parser::CliOptionParser;
use cli_option_parser::RegisterError;

#[test]
fn check_parsing() {
    let mut cli_option_parser = CliOptionParser::new("header".to_string(), "footer".to_string());
    cli_option_parser
        .register_option(
            Some("-c".to_string()),
            Some("--count".to_string()),
            "print only count of selected lines",
            "count",
        )
        .unwrap();

    cli_option_parser
        .register_option(
            Some("-C".to_string()),
            Some("--context".to_string()),
            "print NUM lines of output contex when\n given with --context=NUM",
            "context",
        )
        .unwrap();

    let mock_args = vec![
        "program_name".to_string(),
        "-c123".to_string(),
        "--count=456".to_string(),
        "-C456".to_string(),
        "--context=712".to_string(),
    ];

    let arguments = cli_option_parser.parse_from(mock_args);

    assert_eq!(arguments, vec!["program_name"]);

    assert!(cli_option_parser.is_enabled("count"));
    assert!(cli_option_parser.is_enabled("context"));

    assert!(cli_option_parser.get_option_values("count").len() == 2);
    assert_eq!(*cli_option_parser.get_option_values("count"), vec!["123", "456"]);

    assert!(cli_option_parser.get_option_values("context").len() == 2);
    assert_eq!(*cli_option_parser.get_option_values("context"), vec!["456", "712"]);

    let help_text = cli_option_parser.help_text();

    assert!(help_text.contains("header"));
    assert!(help_text.contains("footer"));
    assert!(help_text.contains("-c    --count         print only count of selected lines"));
    assert!(help_text.contains(
        "-C    --context         print NUM lines of output contex when\n\t\t\t given with --context=NUM"
    ));
}

#[test]
fn state_is_idle_before_any_scan() {
    let mut parser = CliOptionParser::new("h".to_string(), "f".to_string());
    parser
        .register_option(Some("-v".to_string()), Some("--verbose".to_string()), "be chatty", "verbose")
        .unwrap();
    parser
        .register_option(None, Some("--output".to_string()), "output file", "output")
        .unwrap();
    assert!(!parser.is_enabled("verbose"));
    assert!(!parser.is_enabled("output"));
    assert!(parser.get_option_values("verbose").is_empty());
    assert!(parser.get_option_values("output").is_empty());
}

#[test]
fn duplicate_name_is_rejected() {
    let mut parser = CliOptionParser::new("h".to_string(), "f".to_string());
    parser
        .register_option(Some("-a".to_string()), None, "first", "alpha")
        .unwrap();
    let r = parser.register_option(Some("-b".to_string()), None, "second", "alpha");
    assert_eq!(r, Err(RegisterError::DuplicateName));
}

#[test]
fn missing_both_forms_is_rejected() {
    let mut parser = CliOptionParser::new("h".to_string(), "f".to_string());
    let r = parser.register_option(None, None, "formless", "ghostly");
    assert_eq!(r, Err(RegisterError::MissingForms));
}

#[test]
fn duplicate_short_form_is_rejected() {
    let mut parser = CliOptionParser::new("h".to_string(), "f".to_string());
    parser
        .register_option(Some("-a".to_string()), None, "first", "alpha")
        .unwrap();
    let r = parser.register_option(Some("-a".to_string()), None, "second", "beta");
    assert_eq!(r, Err(RegisterError::DuplicateShortForm));
    // the failed registration left no trace
    assert!(!parser.is_enabled("beta"));
}

#[test]
fn duplicate_long_form_is_rejected() {
    let mut parser = CliOptionParser::new("h".to_string(), "f".to_string());
    parser
        .register_option(None, Some("--all".to_string()), "first", "alpha")
        .unwrap();
    let r = parser.register_option(None, Some("--all".to_string()), "second", "beta");
    assert_eq!(r, Err(RegisterError::DuplicateLongForm));
}

#[test]
fn short_then_long_hit_keeps_order() {
    let mut parser = CliOptionParser::new("h".to_string(), "f".to_string());
    parser
        .register_option(Some("-c".to_string()), Some("--count".to_string()), "count lines", "count")
        .unwrap();
    let args = vec!["-c123".to_string(), "--count=456".to_string()];
    let positionals = parser.parse_from(args);
    assert!(positionals.is_empty());
    assert!(parser.is_enabled("count"));
    assert_eq!(*parser.get_option_values("count"), vec!["123", "456"]);
}

#[test]
fn positional_tokens_are_preserved_in_order() {
    let mut parser = CliOptionParser::new("h".to_string(), "f".to_string());
    parser
        .register_option(Some("-c".to_string()), Some("--count".to_string()), "count lines", "count")
        .unwrap();
    let args = vec![
        "first".to_string(),
        "-c1".to_string(),
        "second".to_string(),
        "--count=2".to_string(),
        "third".to_string(),
    ];
    let positionals = parser.parse_from(args);
    assert_eq!(positionals, vec!["first", "second", "third"]);
    // the positional tokens reached no option's value list
    assert_eq!(*parser.get_option_values("count"), vec!["1", "2"]);
}

#[test]
fn unknown_flags_vanish() {
    let mut parser = CliOptionParser::new("h".to_string(), "f".to_string());
    parser
        .register_option(Some("-c".to_string()), Some("--count".to_string()), "count lines", "count")
        .unwrap();
    let args = vec![
        "--bogus".to_string(),
        "-z".to_string(),
        "--bogus=5".to_string(),
        "keep".to_string(),
        "-".to_string(),
    ];
    let positionals = parser.parse_from(args);
    assert_eq!(positionals, vec!["keep"]);
    assert!(!parser.is_enabled("count"));
    assert!(parser.get_option_values("count").is_empty());
}

#[test]
fn never_enabled_name_reads_empty() {
    let parser = CliOptionParser::new("h".to_string(), "f".to_string());
    assert!(!parser.is_enabled("missing"));
    assert!(parser.get_option_values("missing").is_empty());
}

#[test]
fn repeated_queries_return_identical_results() {
    let mut parser = CliOptionParser::new("h".to_string(), "f".to_string());
    parser
        .register_option(Some("-c".to_string()), None, "count lines", "count")
        .unwrap();
    parser.parse_from(vec!["-c7".to_string()]);
    let enabled_first = parser.is_enabled("count");
    let enabled_second = parser.is_enabled("count");
    assert_eq!(enabled_first, enabled_second);
    let values_first = parser.get_option_values("count").clone();
    let values_second = parser.get_option_values("count").clone();
    assert_eq!(values_first, values_second);
    let empty_first = parser.get_option_values("missing").clone();
    let empty_second = parser.get_option_values("missing").clone();
    assert_eq!(empty_first, empty_second);
    assert!(empty_first.is_empty());
}

#[test]
fn value_splits_on_first_separator_only() {
    let mut parser = CliOptionParser::new("h".to_string(), "f".to_string());
    parser
        .register_option(None, Some("--define".to_string()), "a key=value pair", "define")
        .unwrap();
    parser.parse_from(vec!["--define=key=value".to_string()]);
    assert_eq!(*parser.get_option_values("define"), vec!["key=value"]);
}

#[test]
fn empty_values_are_collected() {
    let mut parser = CliOptionParser::new("h".to_string(), "f".to_string());
    parser
        .register_option(Some("-c".to_string()), Some("--count".to_string()), "count lines", "count")
        .unwrap();
    // a long form with a trailing separator and a bare two-character short
    // token both attach an empty value
    parser.parse_from(vec!["--count=".to_string(), "-c".to_string()]);
    assert!(parser.is_enabled("count"));
    assert_eq!(*parser.get_option_values("count"), vec!["", ""]);
}

#[test]
fn bare_long_form_enables_without_value() {
    let mut parser = CliOptionParser::new("h".to_string(), "f".to_string());
    parser
        .register_option(None, Some("--verbose".to_string()), "be chatty", "verbose")
        .unwrap();
    parser.parse_from(vec!["--verbose".to_string()]);
    assert!(parser.is_enabled("verbose"));
    assert!(parser.get_option_values("verbose").is_empty());
}

#[test]
fn bare_short_form_enables_without_value() {
    let mut parser = CliOptionParser::new("h".to_string(), "f".to_string());
    parser
        .register_option(Some("-".to_string()), None, "read standard input", "stdin")
        .unwrap();
    parser.parse_from(vec!["-".to_string()]);
    assert!(parser.is_enabled("stdin"));
    assert!(parser.get_option_values("stdin").is_empty());
}

#[test]
fn empty_token_is_positional() {
    let mut parser = CliOptionParser::new("h".to_string(), "f".to_string());
    parser
        .register_option(Some("-c".to_string()), None, "count lines", "count")
        .unwrap();
    let positionals = parser.parse_from(vec!["".to_string()]);
    assert_eq!(positionals, vec![""]);
}

#[test]
fn help_text_exact_rendering() {
    let mut parser = CliOptionParser::new("H".to_string(), "F".to_string());
    parser
        .register_option(Some("-x".to_string()), None, "hi", "x")
        .unwrap();
    let expected = format!("H\n\n-x{}hi\n\nF\n\n", " ".repeat(14));
    assert_eq!(parser.help_text(), expected);
}

#[test]
fn help_text_reindents_embedded_line_breaks() {
    let mut parser = CliOptionParser::new("top".to_string(), "bottom".to_string());
    parser
        .register_option(None, Some("--two".to_string()), "first\nsecond", "two")
        .unwrap();
    let help = parser.help_text();
    assert!(help.contains("top"));
    assert!(help.contains("bottom"));
    assert!(help.contains("--two         first\n\t\t\tsecond"));
}
