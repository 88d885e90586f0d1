use nge::options::{
    log_level_named, options_from_arguments, parse_options_inner, usage_text, Arguments,
    BaseProjectOptions, LogLevel, Options, OptionsError,
};

fn words(line: &[&str]) -> Vec<String> {
    line.iter().map(|w| w.to_string()).collect()
}

fn project_path(o: &Options) -> &str {
    match &o.project_options {
        BaseProjectOptions::Expansion(e) => &e.project_path,
    }
}

#[test]
fn no_options_give_the_defaults() {
    let o = parse_options_inner(&words(&["nge"])).unwrap();
    assert_eq!(o.log_level, None);
    assert_eq!(o.log_file, None);
    assert!(!o.print_usage);
    assert_eq!(project_path(&o), "pokeemerald-expansion");
    match &o.project_options {
        BaseProjectOptions::Expansion(e) => {
            assert_eq!(e.trainers_party_file_path, "/src/data/trainers.party")
        }
    }
    let d = Options::default();
    assert_eq!(project_path(&d), "pokeemerald-expansion");
    assert_eq!(d.log_level, None);
}

#[test]
fn the_first_word_is_the_program() {
    let o = parse_options_inner(&words(&["--help"])).unwrap();
    assert!(!o.print_usage);
    assert!(parse_options_inner(&Vec::new()).is_ok());
}

#[test]
fn every_option_is_taken() {
    let o = parse_options_inner(&words(&[
        "nge", "-P", "my/project", "--log-level", "WaRn", "--log-file", "out.log", "-h",
    ]))
    .unwrap();
    assert_eq!(project_path(&o), "my/project");
    assert_eq!(o.log_level, Some(LogLevel::Warn));
    assert_eq!(o.log_file.as_deref(), Some("out.log"));
    assert!(o.print_usage);
}

#[test]
fn log_levels_have_four_names() {
    assert_eq!(log_level_named("debug"), Some(LogLevel::Debug));
    assert_eq!(log_level_named("info"), Some(LogLevel::Info));
    assert_eq!(log_level_named("warn"), Some(LogLevel::Warn));
    assert_eq!(log_level_named("error"), Some(LogLevel::Error));
    assert_eq!(log_level_named("DEBUG"), None);
    assert_eq!(log_level_named("trace"), None);
    assert_eq!(log_level_named(""), None);
    for (arg, level) in [("DEBUG", LogLevel::Debug), ("Info", LogLevel::Info), ("eRRor", LogLevel::Error)]
    {
        let o = parse_options_inner(&words(&["nge", "-L", arg])).unwrap();
        assert_eq!(o.log_level, Some(level));
    }
}

#[test]
fn unknown_log_level_is_handed_back() {
    match parse_options_inner(&words(&["nge", "-L", "Loud"])) {
        Err(OptionsError::InvalidArgument(a)) => assert_eq!(a, "Loud"),
        other => panic!("unexpected: {:?}", other),
    }
    let arguments = Arguments {
        project: None,
        log_level: Some("TRACE".to_owned()),
        log_file: None,
        help: true,
    };
    assert!(matches!(
        options_from_arguments(&arguments),
        Err(OptionsError::InvalidArgument(_))
    ));
}

#[test]
fn command_line_that_does_not_fit_is_refused() {
    assert!(matches!(
        parse_options_inner(&words(&["nge", "--nothing"])),
        Err(OptionsError::GetoptFail(getopts::Fail::UnrecognizedOption(_)))
    ));
    assert!(matches!(
        parse_options_inner(&words(&["nge", "-P"])),
        Err(OptionsError::GetoptFail(getopts::Fail::ArgumentMissing(_)))
    ));
    assert!(matches!(
        parse_options_inner(&words(&["nge", "-P", "a", "-P", "b"])),
        Err(OptionsError::GetoptFail(getopts::Fail::OptionDuplicated(_)))
    ));
}

#[test]
fn usage_names_the_program_and_the_options() {
    let text = usage_text("nge");
    assert!(text.starts_with("nge: Nuzlocke Generator Engine\n"));
    for option in ["--project", "--log-level", "--log-file", "--help"] {
        assert!(text.contains(option));
    }
}
