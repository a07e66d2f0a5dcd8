use vstd::prelude::*;
use vstd::string::*;
use vstd::utf8::*;

use crate::cli::install::opt_text;
use crate::cli::options::{
    accepts, handler_for, handler_views, option_arguments, parse_options, parse_spec, ArgLen,
    HandlerView, OptionHandler, OptionStep, ParseOutcome, ParseView,
};
use crate::program_execution::utf8_to_string;
use crate::text::{is_flag, texts};

pub mod install;
pub mod options;
pub mod remove;
pub mod run;
pub mod update;

verus! {

/// The commands dpm knows, with where their own arguments start.
pub enum Command {
    /// No command was given: show the usage.
    ShowUsage,
    /// Install a program; its options start at `options_index`.
    Install { options_index: usize },
    /// Update the sources, or a program named at `options_index`.
    Update { options_index: usize },
    /// Run Docker's hello-world image.
    Hello,
    /// Run a program; its options start at `options_index`.
    Run { options_index: usize },
    /// List the programs the sources offer.
    List,
    /// Remove a program named at `options_index`.
    Remove { options_index: usize },
    /// Not a command of dpm's own: the word at `program_index` may name a
    /// program to run.
    Program { command: String, program_index: usize },
}

/// The command the argument at `cmd_index` names. The arguments of
/// `install`, `run`, `update` and `remove` follow their name.
pub fn select_command(args: &Vec<String>, cmd_index: usize) -> (r: Command)
    ensures
        cmd_index >= args.len() ==> r is ShowUsage,
        cmd_index < args.len() ==> {
            let c = args@[cmd_index as int]@;
            &&& c == "install"@ <==> r == Command::Install { options_index: (cmd_index + 1) as usize }
            &&& c == "update"@ <==> r == Command::Update { options_index: (cmd_index + 1) as usize }
            &&& c == "hello"@ <==> r is Hello
            &&& c == "run"@ <==> r == Command::Run { options_index: (cmd_index + 1) as usize }
            &&& c == "list"@ <==> r is List
            &&& c == "remove"@ <==> r == Command::Remove { options_index: (cmd_index + 1) as usize }
            &&& r is Program ==> r->command@ == c && r->program_index == cmd_index
            &&& r !is ShowUsage
        },
{
    if cmd_index >= args.len() {
        return Command::ShowUsage;
    }
    let cmd = &args[cmd_index];
    proof {
        reveal_strlit("install");
        reveal_strlit("update");
        reveal_strlit("hello");
        reveal_strlit("run");
        reveal_strlit("list");
        reveal_strlit("remove");
        assert("install"@.len() == 7);
        assert("update"@.len() == 6);
        assert("hello"@.len() == 5);
        assert("run"@.len() == 3);
        assert("list"@.len() == 4);
        assert("remove"@.len() == 6);
        assert("update"@[0] != "remove"@[0]);
    }
    let next = cmd_index + 1;
    if *cmd == String::from_str("install") {
        Command::Install { options_index: next }
    } else if *cmd == String::from_str("update") {
        Command::Update { options_index: next }
    } else if *cmd == String::from_str("hello") {
        Command::Hello
    } else if *cmd == String::from_str("run") {
        Command::Run { options_index: next }
    } else if *cmd == String::from_str("list") {
        Command::List
    } else if *cmd == String::from_str("remove") {
        Command::Remove { options_index: next }
    } else {
        Command::Program { command: cmd.clone(), program_index: cmd_index }
    }
}

/// The options dpm itself knows, before its command: version, help, and
/// the tag of the program to run.
pub open spec fn global_handlers() -> Seq<HandlerView> {
    seq![
        HandlerView { flags: seq!["-v"@, "--version"@], arg_len: ArgLen::Usize(0) },
        HandlerView { flags: seq!["-h"@, "--help"@], arg_len: ArgLen::Usize(0) },
        HandlerView { flags: seq!["-t"@, "--tag"@], arg_len: ArgLen::Usize(1) },
    ]
}

/// What the options before the command ask for.
pub enum FilterOutcome {
    /// Go on with the command after `added_index` option arguments, with
    /// the image tag `tag` if one was given.
    Continue { added_index: usize, tag: Option<String> },
    /// Show the versions and stop.
    ShowVersion,
    /// Show the usage and stop.
    ShowHelp,
    /// The options are wrong, as `step` says.
    Reject { step: OptionStep },
}

/// Reads the options that follow the program name. Version and help each
/// end the program once shown; a tag is kept for the command.
pub fn filter_options(args: &Vec<String>) -> (r: FilterOutcome)
    ensures
        match parse_spec(texts(args@), global_handlers(), 1, 0, 2, None) {
            ParseView::Proceed { added_index, tag } => r matches FilterOutcome::Continue {
                added_index: n,
                tag: t,
            } && n == added_index && opt_text(t) == tag,
            ParseView::Stop { handler } => if handler == 0 {
                r is ShowVersion
            } else {
                r is ShowHelp
            },
            ParseView::Reject { step } => r matches FilterOutcome::Reject { step: s } && s@ == step,
        },
{
    let handlers = vec![
        OptionHandler::new(vec!["-v", "--version"], Default::default()),
        OptionHandler::new(vec!["-h", "--help"], Default::default()),
        OptionHandler::new(vec!["-t", "--tag"], ArgLen::Usize(1)),
    ];
    assert(handlers@[0]@.flags =~= seq!["-v"@, "--version"@]);
    assert(handlers@[1]@.flags =~= seq!["-h"@, "--help"@]);
    assert(handlers@[2]@.flags =~= seq!["-t"@, "--tag"@]);
    assert(handler_views(handlers@) =~= global_handlers());
    match parse_options(args, &handlers, 1, 2) {
        ParseOutcome::Proceed { added_index, tag } => FilterOutcome::Continue { added_index, tag },
        ParseOutcome::Stop { handler } => {
            if handler == 0 {
                FilterOutcome::ShowVersion
            } else {
                FilterOutcome::ShowHelp
            }
        },
        ParseOutcome::Reject { step } => FilterOutcome::Reject { step },
    }
}

proof fn lemma_not_in_pair(a: Seq<char>, x: Seq<char>, y: Seq<char>)
    requires
        a != x,
        a != y,
    ensures
        !seq![x, y].contains(a),
{
    if seq![x, y].contains(a) {
        let k = choose|k: int| 0 <= k < 2 && seq![x, y][k] == a;
        assert(k == 0 || k == 1);
    }
}

proof fn lemma_global_literals()
    ensures
        "-v"@ != "-h"@,
        "-v"@ != "--help"@,
        "--version"@ != "-h"@,
        "--version"@ != "--help"@,
        "-t"@ != "-v"@,
        "-t"@ != "--version"@,
        "-t"@ != "-h"@,
        "-t"@ != "--help"@,
        "--tag"@ != "-v"@,
        "--tag"@ != "--version"@,
        "--tag"@ != "-h"@,
        "--tag"@ != "--help"@,
        is_flag("-v"@),
        is_flag("--version"@),
        is_flag("-h"@),
        is_flag("--help"@),
        is_flag("-t"@),
        is_flag("--tag"@),
{
    reveal_strlit("-v");
    reveal_strlit("--version");
    reveal_strlit("-h");
    reveal_strlit("--help");
    reveal_strlit("-t");
    reveal_strlit("--tag");
    assert("-v"@[1] != "-h"@[1]);
    assert("-t"@[1] != "-v"@[1]);
    assert("-t"@[1] != "-h"@[1]);
    assert("--version"@.len() != "--help"@.len());
    assert("--tag"@.len() != "--version"@.len());
}

/// `-v` and `--version` given first after the program name show the
/// versions, whatever follows.
pub proof fn version_flag_first_shows_version(args: Seq<Seq<char>>)
    requires
        1 < args.len(),
        args[1] == "-v"@ || args[1] == "--version"@,
    ensures
        parse_spec(args, global_handlers(), 1, 0, 2, None) == (ParseView::Stop { handler: 0 }),
{
    lemma_global_literals();
    let hs = global_handlers();
    if args[1] == "-v"@ {
        assert(hs[0].flags[0] == args[1]);
    } else {
        assert(hs[0].flags[1] == args[1]);
    }
    assert(accepts(hs[0], args[1]));
    assert(handler_for(hs, args[1]) == Some(0int));
    assert(option_arguments(args, ArgLen::Usize(0), 2) =~= Seq::<Seq<char>>::empty());
}

/// `-h` and `--help` given first after the program name show the usage,
/// whatever follows.
pub proof fn help_flag_first_shows_help(args: Seq<Seq<char>>)
    requires
        1 < args.len(),
        args[1] == "-h"@ || args[1] == "--help"@,
    ensures
        parse_spec(args, global_handlers(), 1, 0, 2, None) == (ParseView::Stop { handler: 1 }),
{
    lemma_global_literals();
    let hs = global_handlers();
    lemma_not_in_pair(args[1], "-v"@, "--version"@);
    assert(hs[0].flags == seq!["-v"@, "--version"@]);
    if args[1] == "-h"@ {
        assert(hs[1].flags[0] == args[1]);
    } else {
        assert(hs[1].flags[1] == args[1]);
    }
    assert(accepts(hs[1], args[1]));
    assert(handler_for(hs.drop_first(), args[1]) == Some(0int));
    assert(handler_for(hs, args[1]) == Some(1int));
    assert(option_arguments(args, ArgLen::Usize(0), 2) =~= Seq::<Seq<char>>::empty());
}

/// `-t` and `--tag` before the command take the next argument as the tag,
/// and the options go on after it.
pub proof fn tag_flag_sets_the_global_tag(args: Seq<Seq<char>>, added: nat, tag: Option<Seq<char>>)
    requires
        2 + added < args.len(),
        args[1 + added as int] == "-t"@ || args[1 + added as int] == "--tag"@,
    ensures
        parse_spec(args, global_handlers(), 1, added, 2, tag) == parse_spec(
            args,
            global_handlers(),
            1,
            (added + 2) as nat,
            2,
            Some(args[2 + added as int]),
        ),
{
    lemma_global_literals();
    let hs = global_handlers();
    let a = args[1 + added as int];
    lemma_not_in_pair(a, "-v"@, "--version"@);
    lemma_not_in_pair(a, "-h"@, "--help"@);
    assert(hs[0].flags == seq!["-v"@, "--version"@]);
    assert(hs[1].flags == seq!["-h"@, "--help"@]);
    if a == "-t"@ {
        assert(hs[2].flags[0] == a);
    } else {
        assert(hs[2].flags[1] == a);
    }
    assert(accepts(hs[2], a));
    assert(handler_for(hs.drop_first().drop_first(), a) == Some(0int));
    assert(handler_for(hs.drop_first(), a) == Some(1int));
    assert(handler_for(hs, a) == Some(2int));
    assert(option_arguments(args, ArgLen::Usize(1), 2 + added as int) =~= seq![args[2 + added as int]]);
}

/// The text shown for `--version`: the version of dpm and what
/// `docker --version` printed, or a notice where Docker gave nothing
/// readable.
pub open spec fn version_text(dpm_version: Seq<char>, docker_stdout: Option<Seq<u8>>) -> Seq<char> {
    let docker = match docker_stdout {
        Some(b) => if valid_utf8(b) {
            decode_utf8(b)
        } else {
            "failed to get version from Docker daemon"@
        },
        None => "failed to get version from Docker daemon"@,
    };
    "dpm: "@ + dpm_version + "\ndocker: "@ + docker
}

/// The text shown for `--version`, from the version of dpm and the output
/// of `docker --version` (`None` where Docker could not be run).
pub fn get_version(dpm_version: &str, docker_stdout: Option<Vec<u8>>) -> (r: String)
    ensures
        r@ == version_text(
            dpm_version@,
            match docker_stdout {
                Some(b) => Some(b@),
                None => None,
            },
        ),
{
    let default = String::from_str("failed to get version from Docker daemon");
    let docker_version = match docker_stdout {
        Some(out) => match utf8_to_string(out) {
            Some(s) => s,
            None => default,
        },
        None => default,
    };
    String::from_str("dpm: ").concat(dpm_version).concat("\ndocker: ").concat(docker_version.as_str())
}

/// The notice for a command dpm does not know.
pub fn command_not_found(cmd: &String) -> (r: String)
    ensures
        r@ == "command '"@ + cmd@ + "' not found. Use \n    dpm --help\nto check usage"@,
{
    String::from_str("command '").concat(cmd.as_str()).concat(
        "' not found. Use \n    dpm --help\nto check usage",
    )
}

/// The usage text of dpm.
pub open spec fn program_usage() -> Seq<char> {
    "Usage: dpm [OPTIONS] COMMAND [ARGS...]

Docker Package Manager - Manage locally installed programs with Docker containers.

Options:
  -h, --help     Show this help message and exit.
  -v, --version  Show the version number and exit.

Commands:
  install       Install a program as a Docker container.
  list          List all installed programs.
  remove        Remove a program and its associated Docker container.
  update        Update a program's Docker container to the latest version.

all available programs are also considered valid commands
"@
}

/// The usage text of dpm.
pub fn usage() -> (r: &'static str)
    ensures
        r@ == program_usage(),
{
    "Usage: dpm [OPTIONS] COMMAND [ARGS...]

Docker Package Manager - Manage locally installed programs with Docker containers.

Options:
  -h, --help     Show this help message and exit.
  -v, --version  Show the version number and exit.

Commands:
  install       Install a program as a Docker container.
  list          List all installed programs.
  remove        Remove a program and its associated Docker container.
  update        Update a program's Docker container to the latest version.

all available programs are also considered valid commands
"
}

} // verus!
