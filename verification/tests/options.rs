use std::cell::RefCell;
use std::ops::Range;

use dpm::cli::options::{next_option_step, ArgLen, OptionHandler, OptionStep};
use dpm::errors::Errors;

fn args(v: &[&str]) -> Vec<String> {
    v.iter().map(|s| s.to_string()).collect()
}

fn handlers() -> Vec<OptionHandler> {
    vec![
        OptionHandler::new(vec!["-h", "--help"], ArgLen::default()),
        OptionHandler::new(vec!["-t", "--tag"], ArgLen::Usize(1)),
        OptionHandler::new(vec!["-e"], ArgLen::_Range(1..3)),
    ]
}

#[test]
fn arg_len_defaults_to_no_arguments() {
    assert!(matches!(ArgLen::default(), ArgLen::Usize(0)));
}

#[test]
fn arg_len_into_range() {
    let r: Range<usize> = ArgLen::Usize(2).into();
    assert_eq!(r, 0..2);
    let r: Range<usize> = ArgLen::_Range(3..5).into();
    assert_eq!(r, 3..5);
}

#[test]
fn option_handler_new_keeps_flags() {
    let h = OptionHandler::new(vec!["-t", "--tag"], ArgLen::Usize(1));
    assert_eq!(h.for_flag, vec!["-t", "--tag"]);
    assert!(matches!(h.arg_len, ArgLen::Usize(1)));
}

#[test]
fn step_finishes_at_a_non_flag() {
    let a = args(&["dpm", "install", "python"]);
    assert!(matches!(next_option_step(&a, &handlers(), 2, 0), OptionStep::Finished { added_index: 0 }));
}

#[test]
fn step_finishes_past_the_end() {
    let a = args(&["dpm", "install"]);
    assert!(matches!(next_option_step(&a, &handlers(), 2, 0), OptionStep::Finished { added_index: 0 }));
    assert!(matches!(next_option_step(&a, &handlers(), usize::MAX, 5), OptionStep::Finished { added_index: 5 }));
}

#[test]
fn step_invokes_the_option_with_its_argument() {
    let a = args(&["dpm", "install", "--tag", "3.8", "python"]);
    match next_option_step(&a, &handlers(), 2, 0) {
        OptionStep::Invoke { handler, arguments, resume_index } => {
            assert_eq!(handler, 1);
            assert_eq!(arguments, vec!["3.8".to_string()]);
            assert_eq!(resume_index, 2);
        }
        _ => panic!("expected the tag option to run"),
    }
    assert!(matches!(next_option_step(&a, &handlers(), 2, 2), OptionStep::Finished { added_index: 2 }));
}

#[test]
fn step_takes_the_next_argument_even_if_it_is_a_flag() {
    let a = args(&["dpm", "install", "-t", "-h"]);
    match next_option_step(&a, &handlers(), 2, 0) {
        OptionStep::Invoke { handler, arguments, resume_index } => {
            assert_eq!(handler, 1);
            assert_eq!(arguments, vec!["-h".to_string()]);
            assert_eq!(resume_index, 2);
        }
        _ => panic!("expected the tag option to run"),
    }
}

#[test]
fn step_rejects_an_unknown_flag() {
    let a = args(&["dpm", "install", "-x", "python"]);
    match next_option_step(&a, &handlers(), 2, 0) {
        OptionStep::UnknownOption { flag } => assert_eq!(flag, "-x"),
        _ => panic!("expected an unknown option"),
    }
}

#[test]
fn step_rejects_missing_arguments() {
    let a = args(&["dpm", "install", "-t"]);
    let step = next_option_step(&a, &handlers(), 2, 0);
    match &step {
        OptionStep::MissingArguments { flag, expected, got } => {
            assert_eq!(flag, "-t");
            assert_eq!(*expected, 1);
            assert_eq!(*got, 0);
        }
        _ => panic!("expected missing arguments"),
    }
    assert_eq!(step.failure(), Some(Errors::MissingArgument));
}

#[test]
fn range_options_take_what_exists() {
    // offsets 1 and 2 after the flag; only offset 1 exists
    let a = args(&["dpm", "-e", "skipped", "first"]);
    match next_option_step(&a, &handlers(), 1, 0) {
        OptionStep::Invoke { handler, arguments, resume_index } => {
            assert_eq!(handler, 2);
            assert_eq!(arguments, vec!["first".to_string()]);
            assert_eq!(resume_index, 2);
        }
        _ => panic!("expected the range option to run"),
    }
    let b = args(&["dpm", "-e"]);
    match next_option_step(&b, &handlers(), 1, 0) {
        OptionStep::Invoke { arguments, resume_index, .. } => {
            assert!(arguments.is_empty());
            assert_eq!(resume_index, 1);
        }
        _ => panic!("a range option never lacks arguments"),
    }
}

#[test]
fn failures_of_steps() {
    let unknown = OptionStep::UnknownOption { flag: "-x".to_string() };
    assert_eq!(unknown.failure(), Some(Errors::InvalidOption));
    let done = OptionStep::Finished { added_index: 0 };
    assert_eq!(done.failure(), None);
}

#[test]
fn handlers_run_as_their_options_are_found() {
    let seen: RefCell<Vec<(usize, Vec<String>)>> = RefCell::new(Vec::new());
    let a = args(&["dpm", "install", "-t", "3.8", "--tag", "3.9", "python"]);
    let r = dpm::cli::options::handle_options(&a, &handlers(), 2, |h: usize, v: &Vec<String>| {
        seen.borrow_mut().push((h, v.clone()));
        Ok(true)
    });
    assert_eq!(r, Ok(Some(4)));
    assert_eq!(
        seen.into_inner(),
        vec![(1, vec!["3.8".to_string()]), (1, vec!["3.9".to_string()])]
    );
}

#[test]
fn a_handler_can_stop_or_fail() {
    let a = args(&["dpm", "install", "-h", "python"]);
    let stop = dpm::cli::options::handle_options(&a, &handlers(), 2, |_h: usize, _v: &Vec<String>| Ok(false));
    assert_eq!(stop, Ok(None));
    let fail = dpm::cli::options::handle_options(&a, &handlers(), 2, |_h: usize, _v: &Vec<String>| {
        Err(Errors::STDINError)
    });
    assert_eq!(fail, Err(Errors::STDINError));
    let b = args(&["dpm", "install", "-q"]);
    let unknown = dpm::cli::options::handle_options(&b, &handlers(), 2, |_h: usize, _v: &Vec<String>| Ok(true));
    assert_eq!(unknown, Err(Errors::InvalidOption));
    let c = args(&["dpm", "install", "-t"]);
    let missing = dpm::cli::options::handle_options(&c, &handlers(), 2, |_h: usize, _v: &Vec<String>| Ok(true));
    assert_eq!(missing, Err(Errors::MissingArgument));
}
