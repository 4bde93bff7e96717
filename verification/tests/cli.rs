use clap::{Arg, ArgAction, Command};
use dicom_batch::cli::cli_options;

fn application() -> Command {
    let mut command = Command::new("dicom_batch").version("0.1.0");
    for option in cli_options() {
        let mut arg = Arg::new(option.name)
            .short(option.short)
            .long(option.long)
            .required(option.required);
        arg = if option.takes_value {
            arg.action(ArgAction::Set)
                .value_parser(clap::builder::PathBufValueParser::new())
        } else {
            arg.action(ArgAction::SetTrue)
        };
        command = command.arg(arg);
    }
    command
}

#[test]
fn verify_cli() {
    application().debug_assert();
}

#[test]
fn cli_parses_the_three_options() {
    let matches = application()
        .try_get_matches_from(["tool", "-v", "-i", "in.dcm", "--json-file", "out"])
        .unwrap();
    assert!(matches.get_flag("verbose"));
    assert_eq!(
        matches.get_one::<std::path::PathBuf>("input_file").unwrap(),
        &std::path::PathBuf::from("in.dcm")
    );
    assert_eq!(
        matches.get_one::<std::path::PathBuf>("output_file").unwrap(),
        &std::path::PathBuf::from("out")
    );
}

#[test]
fn cli_requires_both_paths() {
    assert!(application().try_get_matches_from(["tool", "-i", "in.dcm"]).is_err());
    assert!(application().try_get_matches_from(["tool", "-o", "out"]).is_err());
    assert!(application().try_get_matches_from(["tool", "-i", "a", "-o", "b"]).is_ok());
}
