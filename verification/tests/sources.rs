use dpm::errors::Errors;
use dpm::sources::{find_image_path, get_program_image, list_programs, Program, Source, SourcesFile};

fn program(commands: &[&str], image: Option<&str>) -> Program {
    Program { commands: commands.iter().map(|s| s.to_string()).collect(), image: image.map(|s| s.to_string()) }
}

fn sources() -> SourcesFile {
    SourcesFile {
        sources: vec![
            Source {
                name: "library".to_string(),
                programs: vec![
                    ("python".to_string(), program(&["python", "python3", "pip"], None)),
                    ("node".to_string(), program(&["node", "npm"], Some("node-lts"))),
                ],
            },
            Source {
                name: "extra".to_string(),
                programs: vec![
                    ("python2".to_string(), program(&["python"], None)),
                    ("rust".to_string(), program(&["cargo", "rustc"], Some("rust-slim"))),
                ],
            },
        ],
    }
}

#[test]
fn image_of_a_command() {
    assert_eq!(find_image_path(&"pip".to_string(), &sources()), Some("library/python".to_string()));
    assert_eq!(find_image_path(&"npm".to_string(), &sources()), Some("library/node-lts".to_string()));
    assert_eq!(find_image_path(&"rustc".to_string(), &sources()), Some("extra/rust-slim".to_string()));
}

#[test]
fn first_source_wins() {
    assert_eq!(get_program_image(&"python".to_string(), &sources()), Ok("library/python".to_string()));
}

#[test]
fn unknown_program() {
    assert_eq!(get_program_image(&"ruby".to_string(), &sources()), Err(Errors::ProgramNotFound));
    assert_eq!(get_program_image(&"python".to_string(), &SourcesFile { sources: vec![] }), Err(Errors::ProgramNotFound));
}

#[test]
fn default_program_has_nothing() {
    let p = Program::default();
    assert!(p.commands.is_empty());
    assert!(p.image.is_none());
}

#[test]
fn dpm_list_lists_commands_with_images() {
    let expected: Vec<(String, String)> = [
        ("python", "library/python"),
        ("python3", "library/python"),
        ("pip", "library/python"),
        ("node", "library/node-lts"),
        ("npm", "library/node-lts"),
        ("python", "extra/python2"),
        ("cargo", "extra/rust-slim"),
        ("rustc", "extra/rust-slim"),
    ]
    .iter()
    .map(|(c, i)| (c.to_string(), i.to_string()))
    .collect();
    assert_eq!(list_programs(&sources()), expected);
    assert!(list_programs(&SourcesFile { sources: vec![] }).is_empty());
}
