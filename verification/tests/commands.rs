use dpm::cli::install::{program_lookup, ProgramLookup};
use dpm::cli::remove::{self, RemoveCommand};
use dpm::cli::update::{self, UpdateCommand};
use dpm::cli::install::{self, InstallCommand, ReadOptions};
use dpm::cli::{command_not_found, filter_options, get_version, select_command, usage, Command, FilterOutcome};
use dpm::cli_lib::{self, StartupAction};
use dpm::errors::Errors;

fn args(v: &[&str]) -> Vec<String> {
    v.iter().map(|s| s.to_string()).collect()
}

#[test]
fn read_options_collects_the_tag() {
    let a = args(&["dpm", "install", "-t", "3.8", "python"]);
    match install::read_options(&a, 2) {
        ReadOptions::Proceed { added_index, options } => {
            assert_eq!(added_index, 2);
            assert_eq!(options.tag, Some("3.8".to_string()));
        }
        _ => panic!("expected options"),
    }
}

#[test]
fn read_options_last_tag_wins() {
    let a = args(&["dpm", "run", "-t", "1", "--tag", "2", "node", "-v"]);
    match install::read_options(&a, 2) {
        ReadOptions::Proceed { added_index, options } => {
            assert_eq!(added_index, 4);
            assert_eq!(options.tag, Some("2".to_string()));
        }
        _ => panic!("expected options"),
    }
}

#[test]
fn read_options_without_options() {
    let a = args(&["dpm", "install", "python"]);
    match install::read_options(&a, 2) {
        ReadOptions::Proceed { added_index, options } => {
            assert_eq!(added_index, 0);
            assert_eq!(options.tag, None);
        }
        _ => panic!("expected options"),
    }
}

#[test]
fn help_stops_install() {
    let a = args(&["dpm", "install", "-t", "1", "-h", "python"]);
    assert!(matches!(install::run(&a, 2, None), InstallCommand::Stop));
}

#[test]
fn install_finds_the_program() {
    let a = args(&["dpm", "install", "--tag", "3.8", "python"]);
    match install::run(&a, 2, None) {
        InstallCommand::Install { program, program_index, options } => {
            assert_eq!(program, "python");
            assert_eq!(program_index, 4);
            assert_eq!(options.tag, Some("3.8".to_string()));
        }
        _ => panic!("expected an installation"),
    }
}

#[test]
fn install_without_program() {
    let a = args(&["dpm", "install", "-t", "3.8"]);
    assert!(matches!(install::run(&a, 2, None), InstallCommand::MissingProgram));
    let b = args(&["dpm", "install"]);
    assert!(matches!(install::run(&b, 2, None), InstallCommand::MissingProgram));
}

#[test]
fn install_rejects_bad_options() {
    let a = args(&["dpm", "install", "--force", "python"]);
    match install::run(&a, 2, None) {
        InstallCommand::Reject { step } => assert_eq!(step.failure(), Some(Errors::InvalidOption)),
        _ => panic!("expected a rejection"),
    }
    let b = args(&["dpm", "install", "--tag"]);
    match install::run(&b, 2, None) {
        InstallCommand::Reject { step } => assert_eq!(step.failure(), Some(Errors::MissingArgument)),
        _ => panic!("expected a rejection"),
    }
}

#[test]
fn global_options() {
    assert!(matches!(filter_options(&args(&["dpm", "-v"])), FilterOutcome::ShowVersion));
    assert!(matches!(filter_options(&args(&["dpm", "--version", "install"])), FilterOutcome::ShowVersion));
    assert!(matches!(filter_options(&args(&["dpm", "-h"])), FilterOutcome::ShowHelp));
    assert!(matches!(filter_options(&args(&["dpm", "--help", "-v"])), FilterOutcome::ShowHelp));
    assert!(matches!(filter_options(&args(&["dpm", "install", "-v"])), FilterOutcome::Continue { added_index: 0, tag: None }));
    match filter_options(&args(&["dpm", "-x"])) {
        FilterOutcome::Reject { step } => assert_eq!(step.failure(), Some(Errors::InvalidOption)),
        _ => panic!("expected a rejection"),
    }
}

#[test]
fn a_tag_before_the_program() {
    // dpm --tag 3.8 python
    let a = args(&["dpm", "--tag", "3.8", "python"]);
    let (added, tag) = match filter_options(&a) {
        FilterOutcome::Continue { added_index, tag } => (added_index, tag),
        _ => panic!("expected to go on"),
    };
    assert_eq!(added, 2);
    assert_eq!(tag, Some("3.8".to_string()));
    match select_command(&a, added + 1) {
        Command::Program { command, .. } => assert_eq!(command, "python"),
        _ => panic!("python is no command of its own"),
    }
    match install::program_command(&a, added + 1, tag) {
        InstallCommand::Install { program, program_index, options } => {
            assert_eq!(program, "python");
            assert_eq!(program_index, 3);
            assert_eq!(options.tag, Some("3.8".to_string()));
        }
        _ => panic!("expected python to run"),
    }
}

#[test]
fn a_program_as_the_command() {
    // dpm python
    let a = args(&["dpm", "python", "script.py"]);
    assert!(matches!(filter_options(&a), FilterOutcome::Continue { added_index: 0, tag: None }));
    match install::program_command(&a, 1, None) {
        InstallCommand::Install { program, program_index, options } => {
            assert_eq!(program, "python");
            assert_eq!(program_index, 1);
            assert_eq!(options.tag, None);
        }
        _ => panic!("expected python to run"),
    }
}

#[test]
fn a_tag_before_the_command_is_a_default() {
    let a = args(&["dpm", "-t", "1", "install", "python"]);
    match install::run(&a, 4, Some("1".to_string())) {
        InstallCommand::Install { options, .. } => assert_eq!(options.tag, Some("1".to_string())),
        _ => panic!("expected an installation"),
    }
    let b = args(&["dpm", "-t", "1", "install", "-t", "2", "python"]);
    match install::run(&b, 4, Some("1".to_string())) {
        InstallCommand::Install { options, .. } => assert_eq!(options.tag, Some("2".to_string())),
        _ => panic!("expected an installation"),
    }
}

#[test]
fn startup_flags_of_the_plain_interface() {
    assert!(cli_lib::filter_options(&args(&["dpm", "-x", "-h"])) == StartupAction::ShowHelp);
    assert!(cli_lib::filter_options(&args(&["dpm", "-h", "--version"])) == StartupAction::ShowVersion);
    assert!(cli_lib::filter_options(&args(&["dpm", "run", "-v"])) == StartupAction::Proceed);
    assert!(cli_lib::filter_options(&args(&["dpm"])) == StartupAction::Proceed);
    assert!(cli_lib::filter_options(&args(&["dpm", "-q"])) == StartupAction::Proceed);
}

#[test]
fn commands_are_selected() {
    let a = args(&["dpm", "install", "update", "hello", "run", "list", "remove", "python"]);
    assert!(matches!(select_command(&a, 1), Command::Install { options_index: 2 }));
    assert!(matches!(select_command(&a, 2), Command::Update { options_index: 3 }));
    assert!(matches!(select_command(&a, 3), Command::Hello));
    assert!(matches!(select_command(&a, 4), Command::Run { options_index: 5 }));
    assert!(matches!(select_command(&a, 5), Command::List));
    assert!(matches!(select_command(&a, 6), Command::Remove { options_index: 7 }));
    match select_command(&a, 7) {
        Command::Program { command, program_index } => {
            assert_eq!(command, "python");
            assert_eq!(program_index, 7);
        }
        _ => panic!("expected a program"),
    }
    assert!(matches!(select_command(&a, 8), Command::ShowUsage));
}

#[test]
fn dpm_list_is_a_command() {
    assert!(matches!(select_command(&args(&["dpm", "list"]), 1), Command::List));
}

#[test]
fn update_and_remove_read_their_program() {
    let a = args(&["dpm", "update", "python"]);
    match update::run(&a, 2) {
        UpdateCommand::Program { program } => assert_eq!(program, "python"),
        _ => panic!("expected a program update"),
    }
    assert!(matches!(update::run(&args(&["dpm", "update"]), 2), UpdateCommand::Sources));
    match remove::run(&args(&["dpm", "remove", "node"]), 2) {
        RemoveCommand::Remove { program } => assert_eq!(program, "node"),
        _ => panic!("expected a removal"),
    }
    assert!(matches!(remove::run(&args(&["dpm", "remove"]), 2), RemoveCommand::MissingProgram));
}

#[test]
fn commands_that_install_nothing() {
    assert_eq!(install::run(&args(&["dpm", "install", "-h"]), 2, None).failure(), None);
    assert_eq!(install::run(&args(&["dpm", "install"]), 2, None).failure(), Some(Errors::MissingArgument));
    assert_eq!(install::run(&args(&["dpm", "install", "-q", "x"]), 2, None).failure(), Some(Errors::InvalidOption));
    assert_eq!(install::run(&args(&["dpm", "install", "x"]), 2, None).failure(), None);
}

#[test]
fn a_program_named_as_command_is_looked_up() {
    match program_lookup(Ok("library/python".to_string())) {
        ProgramLookup::Image { image } => assert_eq!(image, "library/python"),
        _ => panic!("expected an image"),
    }
    assert!(matches!(program_lookup(Err(Errors::ProgramNotFound)), ProgramLookup::UnknownCommand));
    assert!(matches!(
        program_lookup(Err(Errors::HTTPRequestFailed)),
        ProgramLookup::Failed { error: Errors::HTTPRequestFailed }
    ));
}

#[test]
fn version_text() {
    assert_eq!(
        get_version("0.1.0", Some(b"Docker version 24.0.5, build ced0996\n".to_vec())),
        "dpm: 0.1.0\ndocker: Docker version 24.0.5, build ced0996\n"
    );
    assert_eq!(get_version("0.1.0", None), "dpm: 0.1.0\ndocker: failed to get version from Docker daemon");
    assert_eq!(
        get_version("2.3.4", Some(vec![0xfe, 0xff])),
        "dpm: 2.3.4\ndocker: failed to get version from Docker daemon"
    );
}

#[test]
fn unknown_command_notice() {
    assert_eq!(
        command_not_found(&"list".to_string()),
        "command 'list' not found. Use \n    dpm --help\nto check usage"
    );
}

#[test]
fn usage_texts() {
    assert!(usage().starts_with("Usage: dpm [OPTIONS] COMMAND [ARGS...]"));
    assert!(usage().contains("  -v, --version  Show the version number and exit."));
    assert!(install::usage().starts_with("Usage: dpm install"));
    assert_eq!(dpm::cli::run::usage(), "lol");
}
