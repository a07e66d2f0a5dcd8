use dpm::cli::install::{complete_install, plan_install, plan_update, pull_outcome, InstallOptions, InstallPlan};
use dpm::cli::remove::{complete_remove, plan_remove, RemovePlan};
use dpm::cli::run::{build_run_args, docker_run_args};
use dpm::configuration_manager::{AppConfig, InstalledPrograms};
use dpm::errors::Errors;

fn strings(v: &[&str]) -> Vec<String> {
    v.iter().map(|s| s.to_string()).collect()
}

#[test]
fn default_config_is_empty() {
    let c = AppConfig::new("0.1.0");
    assert_eq!(c.version, "0.1.0");
    assert!(c.installed_programs.entries().is_empty());
}

#[test]
fn recorded_tags_are_read_back() {
    let mut p = InstalledPrograms::new();
    p.insert("library/python".to_string(), strings(&["3.8"]));
    p.insert("library/node".to_string(), strings(&["20"]));
    p.insert("library/python".to_string(), strings(&["3.9", "3.8"]));
    assert_eq!(p.get(&"library/python".to_string()), Some(&strings(&["3.9", "3.8"])));
    assert_eq!(p.get(&"library/node".to_string()), Some(&strings(&["20"])));
    assert_eq!(p.get(&"library/ruby".to_string()), None);
    assert_eq!(p.entries().len(), 2);
}

#[test]
fn later_entries_replace_earlier_ones() {
    let p = InstalledPrograms::from_entries(vec![
        ("a".to_string(), strings(&["1"])),
        ("b".to_string(), strings(&["2"])),
        ("a".to_string(), strings(&["3"])),
    ]);
    assert_eq!(p.get(&"a".to_string()), Some(&strings(&["3"])));
    assert_eq!(p.get(&"b".to_string()), Some(&strings(&["2"])));
    assert_eq!(p.entries().len(), 2);
}

#[test]
fn plan_pulls_a_new_program_with_latest() {
    let c = AppConfig::new("0.1.0");
    match plan_install(&"library/python".to_string(), &InstallOptions { tag: None }, &c) {
        InstallPlan::Pull { program_with_tag, pull_args, tags } => {
            assert_eq!(program_with_tag, "library/python:latest");
            assert_eq!(pull_args, strings(&["pull", "library/python:latest"]));
            assert_eq!(tags, strings(&["latest"]));
        }
        _ => panic!("expected a pull"),
    }
}

#[test]
fn plan_puts_the_new_tag_first() {
    let mut c = AppConfig::new("0.1.0");
    c.installed_programs.insert("library/python".to_string(), strings(&["3.8", "latest"]));
    let options = InstallOptions { tag: Some("3.9".to_string()) };
    match plan_install(&"library/python".to_string(), &options, &c) {
        InstallPlan::Pull { program_with_tag, tags, .. } => {
            assert_eq!(program_with_tag, "library/python:3.9");
            assert_eq!(tags, strings(&["3.9", "3.8", "latest"]));
        }
        _ => panic!("expected a pull"),
    }
}

#[test]
fn installing_twice_is_installing_once() {
    let mut c = AppConfig::new("0.1.0");
    let program = "library/python".to_string();
    let options = InstallOptions { tag: Some("3.8".to_string()) };
    match plan_install(&program, &options, &c) {
        InstallPlan::Pull { tags, .. } => c.installed_programs.insert(program.clone(), tags),
        _ => panic!("expected a pull"),
    }
    match plan_install(&program, &options, &c) {
        InstallPlan::AlreadyInstalled { program_with_tag } => {
            assert_eq!(program_with_tag, "library/python:3.8")
        }
        _ => panic!("expected the program to be installed"),
    }
}

#[test]
fn removed_programs_are_forgotten() {
    let mut p = InstalledPrograms::new();
    p.insert("a".to_string(), strings(&["1"]));
    p.insert("b".to_string(), strings(&["2"]));
    p.remove(&"a".to_string());
    assert_eq!(p.get(&"a".to_string()), None);
    assert_eq!(p.get(&"b".to_string()), Some(&strings(&["2"])));
    p.remove(&"zzz".to_string());
    assert_eq!(p.entries().len(), 1);
}

#[test]
fn completing_an_installation_records_its_tags_whatever_docker_said() {
    let mut c = AppConfig::new("0.1.0");
    assert_eq!(
        complete_install(&mut c, "library/python".to_string(), strings(&["3.8"]), Some(1)),
        Err(Errors::CommandExecutionFailed)
    );
    assert_eq!(c.installed_programs.get(&"library/python".to_string()), Some(&strings(&["3.8"])));
    assert_eq!(complete_install(&mut c, "library/node".to_string(), strings(&["20"]), Some(0)), Ok(()));
    assert_eq!(c.installed_programs.get(&"library/node".to_string()), Some(&strings(&["20"])));
}

#[test]
fn removal_plan_and_outcome() {
    let mut c = AppConfig::new("0.1.0");
    assert!(matches!(plan_remove(&"library/python".to_string(), &c), RemovePlan::NotInstalled));
    c.installed_programs.insert("library/python".to_string(), strings(&["3.9", "3.8"]));
    match plan_remove(&"library/python".to_string(), &c) {
        RemovePlan::Remove { rmi_args } => {
            assert_eq!(rmi_args, strings(&["rmi", "library/python:3.9", "library/python:3.8"]))
        }
        _ => panic!("expected a removal"),
    }
    assert_eq!(complete_remove(&mut c, &"library/python".to_string(), Some(1)), Err(Errors::CommandExecutionFailed));
    assert!(c.installed_programs.get(&"library/python".to_string()).is_some());
    assert_eq!(complete_remove(&mut c, &"library/python".to_string(), Some(0)), Ok(()));
    assert!(c.installed_programs.get(&"library/python".to_string()).is_none());
}

#[test]
fn update_pulls_latest() {
    let mut c = AppConfig::new("0.1.0");
    let p = "library/python".to_string();
    let u = plan_update(&p, &c);
    assert_eq!(u.pull_args, strings(&["pull", "library/python:latest"]));
    assert_eq!(u.tags, strings(&["latest"]));
    c.installed_programs.insert(p.clone(), strings(&["3.8"]));
    assert_eq!(plan_update(&p, &c).tags, strings(&["latest", "3.8"]));
    c.installed_programs.insert(p.clone(), strings(&["3.8", "latest"]));
    let u = plan_update(&p, &c);
    assert_eq!(u.pull_args, strings(&["pull", "library/python:latest"]));
    assert_eq!(u.tags, strings(&["3.8", "latest"]));
}

#[test]
fn pull_outcomes() {
    assert_eq!(pull_outcome(Some(0)), Ok(()));
    assert_eq!(pull_outcome(Some(1)), Err(Errors::CommandExecutionFailed));
    assert_eq!(pull_outcome(None), Err(Errors::CommandExecutionFailed));
}

#[test]
fn run_arguments() {
    let args = strings(&["dpm", "run", "-t", "3", "python", "script.py", "--fast"]);
    let options = InstallOptions { tag: Some("3".to_string()) };
    let r = build_run_args("/home/u/p", 1000, 100, &"library/python".to_string(), &options, "python".to_string(), &args, 4);
    assert_eq!(
        r,
        strings(&[
            "run",
            "--workdir",
            "/tmp/home/u/p",
            "--user=\"1000:100\"",
            "--volume",
            "/home/u/p:/tmp/home/u/p",
            "--volume=\"/etc/group:/etc/group:ro\"",
            "--volume=\"/etc/passwd:/etc/passwd:ro\"",
            "--volume=\"/etc/shadow:/etc/shadow:ro\"",
            "--rm",
            "library/python:3",
            "python",
            "script.py",
            "--fast",
        ])
    );
}

#[test]
fn a_tag_given_before_the_program_is_the_one_run() {
    // dpm --tag 3.8 python
    let args = strings(&["dpm", "--tag", "3.8", "python"]);
    let options = InstallOptions { tag: Some("3.8".to_string()) };
    let r = build_run_args("/w", 0, 0, &"library/python".to_string(), &options, "python".to_string(), &args, 3);
    assert_eq!(r[10], "library/python:3.8");
    assert_eq!(r.len(), 12);
}

#[test]
fn run_arguments_for_the_current_user() {
    let args = strings(&["dpm", "run", "node"]);
    let r = docker_run_args("/w", &"library/node".to_string(), &InstallOptions { tag: None }, "node".to_string(), &args, 2);
    assert_eq!(r.len(), 12);
    assert_eq!(r[2], "/tmp/w");
    assert!(r[3].starts_with("--user=\"") && r[3].ends_with('"') && r[3].contains(':'));
    assert_eq!(r[10], "library/node:latest");
    assert_eq!(r[11], "node");
}
