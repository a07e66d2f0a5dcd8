use vstd::prelude::*;
use vstd::string::*;

use crate::cli::options::{
    accepts, handler_for, handler_views, option_arguments, parse_options, parse_spec, step_spec,
    ArgLen, HandlerView, OptionHandler, OptionStep, ParseOutcome, ParseView, StepView,
};
use crate::configuration_manager::{tags_view, AppConfig};
use crate::errors::Errors;
use crate::text::{contains_text, copy_strings, is_flag, texts};

verus! {

/// The options given to `install` and `run`.
pub struct InstallOptions {
    /// The image tag chosen with `-t`/`--tag`.
    pub tag: Option<String>,
}

/// The text of an optional string.
pub open spec fn opt_text(o: Option<String>) -> Option<Seq<char>> {
    match o {
        Some(s) => Some(s@),
        None => None,
    }
}

/// The options `install` and `run` know: help, and the image tag with its
/// one argument.
pub open spec fn tag_handlers() -> Seq<HandlerView> {
    seq![
        HandlerView { flags: seq!["-h"@, "--help"@], arg_len: ArgLen::Usize(0) },
        HandlerView { flags: seq!["-t"@, "--tag"@], arg_len: ArgLen::Usize(1) },
    ]
}

/// The options of `install` and `run`, in the order of `tag_handlers`.
pub fn option_handlers() -> (r: Vec<OptionHandler>)
    ensures
        handler_views(r@) == tag_handlers(),
{
    let r = vec![
        OptionHandler::new(vec!["-h", "--help"], Default::default()),
        OptionHandler::new(vec!["-t", "--tag"], ArgLen::Usize(1)),
    ];
    assert(r@[0]@.flags =~= seq!["-h"@, "--help"@]);
    assert(r@[1]@.flags =~= seq!["-t"@, "--tag"@]);
    assert(handler_views(r@) =~= tag_handlers());
    r
}

/// The outcome of reading the options of `install` or `run`, as the
/// contracts see it.
pub enum ReadView {
    Proceed { added_index: int, tag: Option<Seq<char>> },
    Stop,
    Reject { step: StepView },
}

/// The outcome of reading the options of `install` or `run`.
pub enum ReadOptions {
    /// The options took `added_index` arguments; the program follows them.
    Proceed { added_index: usize, options: InstallOptions },
    /// Help was asked for: its text is shown and nothing else is done.
    Stop,
    /// The options are wrong, as `step` says.
    Reject { step: OptionStep },
}

impl View for ReadOptions {
    type V = ReadView;

    open spec fn view(&self) -> ReadView {
        match self {
            ReadOptions::Proceed { added_index, options } => ReadView::Proceed {
                added_index: *added_index as int,
                tag: opt_text(options.tag),
            },
            ReadOptions::Stop => ReadView::Stop,
            ReadOptions::Reject { step } => ReadView::Reject { step: step@ },
        }
    }
}

/// Reading the options of `install` or `run` from position `start` on:
/// every `-t` sets the tag, `-h` stops, and the first argument that is no
/// option ends the options.
pub open spec fn read_options_spec(args: Seq<Seq<char>>, start: nat) -> ReadView {
    match parse_spec(args, tag_handlers(), start, 0, 1, None) {
        ParseView::Proceed { added_index, tag } => ReadView::Proceed { added_index, tag },
        ParseView::Stop { .. } => ReadView::Stop,
        ParseView::Reject { step } => ReadView::Reject { step },
    }
}

/// Reads the options of `install` or `run`, which start at `cmd_index`.
pub fn read_options(args: &Vec<String>, cmd_index: usize) -> (r: ReadOptions)
    ensures
        r@ == read_options_spec(texts(args@), cmd_index as nat),
        r matches ReadOptions::Proceed { added_index, .. } ==> added_index == 0 || cmd_index
            + added_index <= args.len(),
{
    let handlers = option_handlers();
    match parse_options(args, &handlers, cmd_index, 1) {
        ParseOutcome::Proceed { added_index, tag } => ReadOptions::Proceed {
            added_index,
            options: InstallOptions { tag },
        },
        ParseOutcome::Stop { .. } => ReadOptions::Stop,
        ParseOutcome::Reject { step } => ReadOptions::Reject { step },
    }
}

/// What `install` is asked to do, as the contracts see it.
pub enum InstallCommandView {
    Stop,
    Reject { step: StepView },
    MissingProgram,
    Install { program: Seq<char>, program_index: int, tag: Option<Seq<char>> },
}

/// What `install` (or `run`) is asked to do.
pub enum InstallCommand {
    /// Help was shown; nothing else is done.
    Stop,
    /// The options are wrong, as `step` says.
    Reject { step: OptionStep },
    /// No program follows the options.
    MissingProgram,
    /// Install `program`, found at `program_index`, with `options`.
    Install { program: String, program_index: usize, options: InstallOptions },
}

impl View for InstallCommand {
    type V = InstallCommandView;

    open spec fn view(&self) -> InstallCommandView {
        match self {
            InstallCommand::Stop => InstallCommandView::Stop,
            InstallCommand::Reject { step } => InstallCommandView::Reject { step: step@ },
            InstallCommand::MissingProgram => InstallCommandView::MissingProgram,
            InstallCommand::Install { program, program_index, options } => InstallCommandView::Install {
                program: program@,
                program_index: *program_index as int,
                tag: opt_text(options.tag),
            },
        }
    }
}

/// The command the arguments from `cmd_index` on ask for: the options, then
/// the program, which must be there. A tag among the options wins over
/// `default_tag`, the one given before the command.
pub open spec fn install_command_spec(
    args: Seq<Seq<char>>,
    cmd_index: nat,
    default_tag: Option<Seq<char>>,
) -> InstallCommandView {
    match read_options_spec(args, cmd_index) {
        ReadView::Stop => InstallCommandView::Stop,
        ReadView::Reject { step } => InstallCommandView::Reject { step },
        ReadView::Proceed { added_index, tag } => {
            let i = cmd_index + added_index;
            if i < args.len() {
                InstallCommandView::Install {
                    program: args[i],
                    program_index: i,
                    tag: if tag is Some {
                        tag
                    } else {
                        default_tag
                    },
                }
            } else {
                InstallCommandView::MissingProgram
            }
        },
    }
}

/// Reads what `install` is asked to do: its options start at `cmd_index`,
/// and the program follows them; `default_tag` is the tag given before the
/// command, if any.
pub fn run(args: &Vec<String>, cmd_index: usize, default_tag: Option<String>) -> (r: InstallCommand)
    ensures
        r@ == install_command_spec(texts(args@), cmd_index as nat, opt_text(default_tag)),
{
    match read_options(args, cmd_index) {
        ReadOptions::Stop => InstallCommand::Stop,
        ReadOptions::Reject { step } => InstallCommand::Reject { step },
        ReadOptions::Proceed { added_index, options } => {
            // Calculate the index of the program argument
            let program_index = if added_index == 0 {
                cmd_index
            } else {
                cmd_index + added_index
            };
            if program_index < args.len() {
                let tag = match options.tag {
                    Some(t) => Some(t),
                    None => default_tag,
                };
                InstallCommand::Install {
                    program: args[program_index].clone(),
                    program_index,
                    options: InstallOptions { tag },
                }
            } else {
                InstallCommand::MissingProgram
            }
        },
    }
}

/// Running a program named where the command stands, at `cmd_index`,
/// with the tag given before it: every program a source offers counts as a
/// command.
pub fn program_command(args: &Vec<String>, cmd_index: usize, tag: Option<String>) -> (r: InstallCommand)
    ensures
        cmd_index < args.len() ==> r@ == (InstallCommandView::Install {
            program: args@[cmd_index as int]@,
            program_index: cmd_index as int,
            tag: opt_text(tag),
        }),
        cmd_index >= args.len() ==> r is MissingProgram,
{
    if cmd_index < args.len() {
        InstallCommand::Install {
            program: args[cmd_index].clone(),
            program_index: cmd_index,
            options: InstallOptions { tag },
        }
    } else {
        InstallCommand::MissingProgram
    }
}

/// The tag an installation uses: the one chosen, or `latest`.
pub open spec fn chosen_tag(tag: Option<Seq<char>>) -> Seq<char> {
    match tag {
        Some(t) => t,
        None => "latest"@,
    }
}

/// An image name with its tag, as Docker writes it.
pub open spec fn with_tag(program: Seq<char>, tag: Seq<char>) -> Seq<char> {
    program + ":"@ + tag
}

/// Writes `program:tag`.
pub fn with_tag_text(program: &String, tag: &str) -> (r: String)
    ensures
        r@ == with_tag(program@, tag@),
{
    program.clone().concat(":").concat(tag)
}

/// Whether `program` is recorded as installed with `tag`.
pub open spec fn is_installed(
    installed: Map<Seq<char>, Seq<Seq<char>>>,
    program: Seq<char>,
    tag: Seq<char>,
) -> bool {
    installed.dom().contains(program) && installed[program].contains(tag)
}

/// The tags recorded for `program` once `tag` is installed: the new tag
/// first, then those it had.
pub open spec fn tags_after_install(
    installed: Map<Seq<char>, Seq<Seq<char>>>,
    program: Seq<char>,
    tag: Seq<char>,
) -> Seq<Seq<char>> {
    seq![tag] + if installed.dom().contains(program) {
        installed[program]
    } else {
        Seq::empty()
    }
}

/// What an installation comes to.
pub enum InstallPlan {
    /// The image is installed with this tag already.
    AlreadyInstalled { program_with_tag: String },
    /// Pull the image with `pull_args`, then record `tags` for it.
    Pull { program_with_tag: String, pull_args: Vec<String>, tags: Vec<String> },
}

/// Decides how `program` is installed with `options` under `config`: not
/// at all where that tag is recorded already, else by a `docker pull` of
/// `program:tag` after which the tag joins those recorded.
pub fn plan_install(program: &String, options: &InstallOptions, config: &AppConfig) -> (r: InstallPlan)
    ensures
        ({
            let tag = chosen_tag(opt_text(options.tag));
            let installed = config.installed_programs@;
            &&& r is AlreadyInstalled <==> is_installed(installed, program@, tag)
            &&& r matches InstallPlan::AlreadyInstalled { program_with_tag } ==> program_with_tag@
                == with_tag(program@, tag)
            &&& r matches InstallPlan::Pull { program_with_tag, pull_args, tags } ==> {
                &&& program_with_tag@ == with_tag(program@, tag)
                &&& texts(pull_args@) == seq!["pull"@, with_tag(program@, tag)]
                &&& tags_view(tags) == tags_after_install(installed, program@, tag)
            }
        }),
{
    // The tag chosen with `-t`, or "latest"
    let tag = match &options.tag {
        Some(t) => t.clone(),
        None => String::from_str("latest"),
    };
    let program_with_tag = with_tag_text(program, tag.as_str());
    let mut installed_tags: Vec<String> = Vec::new();
    installed_tags.push(tag.clone());
    let ghost installed = config.installed_programs@;
    match config.installed_programs.get(program) {
        Some(p) => {
            if contains_text(p, &tag) {
                return InstallPlan::AlreadyInstalled { program_with_tag };
            }
            let mut earlier = copy_strings(p, 0, p.len());
            installed_tags.append(&mut earlier);
            assert(texts(p@).subrange(0, p@.len() as int) =~= texts(p@));
            assert(tags_view(installed_tags) =~= tags_after_install(installed, program@, tag@));
        },
        None => {
            assert(tags_view(installed_tags) =~= tags_after_install(installed, program@, tag@));
        },
    }
    let mut pull_args: Vec<String> = Vec::new();
    pull_args.push(String::from_str("pull"));
    pull_args.push(program_with_tag.clone());
    assert(texts(pull_args@) =~= seq!["pull"@, with_tag(program@, tag@)]);
    InstallPlan::Pull { program_with_tag, pull_args, tags: installed_tags }
}

/// An installation records the chosen tag first and then, unchanged and in
/// order, every tag recorded before; a program not installed before
/// records the chosen tag alone.
pub proof fn install_records_chosen_tag_then_earlier(
    installed: Map<Seq<char>, Seq<Seq<char>>>,
    program: Seq<char>,
    tag: Seq<char>,
)
    ensures
        tags_after_install(installed, program, tag).len() >= 1,
        tags_after_install(installed, program, tag)[0] == tag,
        installed.dom().contains(program) ==> {
            &&& tags_after_install(installed, program, tag).len() == installed[program].len() + 1
            &&& forall|k: int|
                0 <= k < installed[program].len() ==> #[trigger] tags_after_install(
                    installed,
                    program,
                    tag,
                )[k + 1] == installed[program][k]
        },
        !installed.dom().contains(program) ==> tags_after_install(installed, program, tag).len()
            == 1,
{
}

proof fn lemma_help_step(args: Seq<Seq<char>>, start: nat, added: nat)
    requires
        start + added < args.len(),
        args[start + added as int] == "-h"@ || args[start + added as int] == "--help"@,
    ensures
        step_spec(args, tag_handlers(), start as int, added as int) == (StepView::Invoke {
            handler: 0,
            arguments: Seq::empty(),
            resume_index: added + 1int,
        }),
{
    reveal_strlit("-h");
    reveal_strlit("--help");
    let idx = start + added as int;
    let hs = tag_handlers();
    assert(is_flag(args[idx]));
    if args[idx] == "-h"@ {
        assert(hs[0].flags[0] == args[idx]);
    } else {
        assert(hs[0].flags[1] == args[idx]);
    }
    assert(accepts(hs[0], args[idx]));
    assert(handler_for(hs, args[idx]) == Some(0int));
    assert(option_arguments(args, ArgLen::Usize(0), idx + 1) =~= Seq::<Seq<char>>::empty());
}

/// `-h` and `--help` name the same option of `install` and `run`: wherever
/// reading the options reaches either, it stops.
pub proof fn help_stops_reading(
    args: Seq<Seq<char>>,
    start: nat,
    added: nat,
    tag: Option<Seq<char>>,
)
    requires
        start + added < args.len(),
        args[start + added as int] == "-h"@ || args[start + added as int] == "--help"@,
    ensures
        parse_spec(args, tag_handlers(), start, added, 1, tag) == (ParseView::Stop { handler: 0 }),
{
    lemma_help_step(args, start, added);
}

/// `install` or `run` whose first option is `-h` or `--help` does nothing
/// but show its help, whatever follows.
pub proof fn help_first_stops_install(
    args: Seq<Seq<char>>,
    cmd_index: nat,
    default_tag: Option<Seq<char>>,
)
    requires
        cmd_index < args.len(),
        args[cmd_index as int] == "-h"@ || args[cmd_index as int] == "--help"@,
    ensures
        install_command_spec(args, cmd_index, default_tag) is Stop,
{
    help_stops_reading(args, cmd_index, 0, None);
}

/// `-t` and `--tag` name the same option of `install` and `run`: the
/// argument after either becomes the tag, and reading goes on after it.
pub proof fn tag_option_sets_the_tag(
    args: Seq<Seq<char>>,
    start: nat,
    added: nat,
    tag: Option<Seq<char>>,
)
    requires
        start + added + 1 < args.len(),
        args[start + added as int] == "-t"@ || args[start + added as int] == "--tag"@,
    ensures
        parse_spec(args, tag_handlers(), start, added, 1, tag) == parse_spec(
            args,
            tag_handlers(),
            start,
            (added + 2) as nat,
            1,
            Some(args[start + added + 1int]),
        ),
{
    reveal_strlit("-h");
    reveal_strlit("--help");
    reveal_strlit("-t");
    reveal_strlit("--tag");
    let idx = start + added as int;
    let hs = tag_handlers();
    let a = args[idx];
    assert(is_flag(a));
    assert(!accepts(hs[0], a)) by {
        if hs[0].flags.contains(a) {
            let k = choose|k: int| 0 <= k < hs[0].flags.len() && hs[0].flags[k] == a;
            if a == "-t"@ {
                assert(hs[0].flags[k][1] != a[1] || hs[0].flags[k].len() != a.len());
            } else {
                assert(hs[0].flags[k][2] != a[2] || hs[0].flags[k].len() != a.len());
            }
        }
    }
    if a == "-t"@ {
        assert(hs[1].flags[0] == a);
    } else {
        assert(hs[1].flags[1] == a);
    }
    assert(accepts(hs[1], a));
    assert(handler_for(hs.drop_first(), a) == Some(0int));
    assert(handler_for(hs, a) == Some(1int));
    let opts = option_arguments(args, ArgLen::Usize(1), idx + 1);
    assert(opts =~= seq![args[idx + 1]]);
}

/// Installing a tag twice is installing it once: once its tags are
/// recorded, the program counts as installed with that tag, keeps every tag
/// it had, and every other program keeps its tags.
pub proof fn installing_twice_is_installing_once(
    installed: Map<Seq<char>, Seq<Seq<char>>>,
    program: Seq<char>,
    tag: Seq<char>,
    other: Seq<char>,
    earlier_tag: Seq<char>,
)
    ensures
        ({
            let after = installed.insert(program, tags_after_install(installed, program, tag));
            &&& is_installed(after, program, tag)
            &&& is_installed(installed, program, earlier_tag) ==> is_installed(
                after,
                program,
                earlier_tag,
            )
            &&& other != program ==> after.dom().contains(other) == installed.dom().contains(other)
                && (installed.dom().contains(other) ==> after[other] == installed[other])
        }),
{
    let after = installed.insert(program, tags_after_install(installed, program, tag));
    assert(after[program][0] == tag);
    if is_installed(installed, program, earlier_tag) {
        let k = choose|k: int| 0 <= k < installed[program].len() && installed[program][k] == earlier_tag;
        assert(after[program][k + 1] == earlier_tag);
    }
}

/// Whether a `docker pull` that ended with `code` installed the image: it
/// did when it exited with 0; a pull ended by a signal or with another code
/// failed.
pub fn pull_outcome(code: Option<i32>) -> (r: Result<(), Errors>)
    ensures
        r == pull_outcome_spec(code),
{
    match code {
        Some(0) => Ok(()),
        _ => Err(Errors::CommandExecutionFailed),
    }
}

/// Finishes an installation after `docker pull` ended with `code`: the
/// tags are recorded for `program` whatever the outcome, and the outcome is
/// that of the pull.
pub fn complete_install(config: &mut AppConfig, program: String, tags: Vec<String>, code: Option<i32>) -> (r: Result<(), Errors>)
    ensures
        final(config).installed_programs@ == old(config).installed_programs@.insert(program@, tags_view(tags)),
        final(config).version == old(config).version,
        r == pull_outcome_spec(code),
{
    config.installed_programs.insert(program, tags);
    pull_outcome(code)
}

/// What a `docker pull` that ended with `code` comes to.
pub open spec fn pull_outcome_spec(code: Option<i32>) -> Result<(), Errors> {
    if code == Some(0i32) {
        Ok(())
    } else {
        Err(Errors::CommandExecutionFailed)
    }
}

impl InstallCommand {
    /// The error a command that installs nothing ends with: none after
    /// help, the error of the refused option, or `MissingArgument` when the
    /// program is missing.
    pub fn failure(&self) -> (r: Option<Errors>)
        ensures
            r == match self {
                InstallCommand::Reject { step } => match step {
                    OptionStep::UnknownOption { .. } => Some(Errors::InvalidOption),
                    OptionStep::MissingArguments { .. } => Some(Errors::MissingArgument),
                    _ => None,
                },
                InstallCommand::MissingProgram => Some(Errors::MissingArgument),
                _ => None,
            },
    {
        match self {
            InstallCommand::Reject { step } => step.failure(),
            InstallCommand::MissingProgram => Some(Errors::MissingArgument),
            _ => None,
        }
    }
}

/// What the lookup of a program named as the command came to.
pub enum ProgramLookup {
    /// Run the program from `image`.
    Image { image: String },
    /// No source offers it: it is an unknown command.
    UnknownCommand,
    /// The lookup failed with this error.
    Failed { error: Errors },
}

/// Decides on a program named as the command from the lookup of its image:
/// a program no source offers is an unknown command, any other failure is
/// passed on.
pub fn program_lookup(lookup: Result<String, Errors>) -> (r: ProgramLookup)
    ensures
        match lookup {
            Ok(image) => r matches ProgramLookup::Image { image: i } && i == image,
            Err(Errors::ProgramNotFound) => r is UnknownCommand,
            Err(e) => r == ProgramLookup::Failed { error: e },
        },
{
    match lookup {
        Ok(image) => ProgramLookup::Image { image },
        Err(Errors::ProgramNotFound) => ProgramLookup::UnknownCommand,
        Err(error) => ProgramLookup::Failed { error },
    }
}

/// The tags recorded for `program` once its `latest` image is pulled
/// again: unchanged when `latest` is among them, else `latest` first.
pub open spec fn tags_after_update(
    installed: Map<Seq<char>, Seq<Seq<char>>>,
    program: Seq<char>,
) -> Seq<Seq<char>> {
    if is_installed(installed, program, "latest"@) {
        installed[program]
    } else {
        tags_after_install(installed, program, "latest"@)
    }
}

/// Updating a program keeps its tags when `latest` is among them, and
/// otherwise records `latest` first, then the tags it had, in order.
pub proof fn update_records_latest(installed: Map<Seq<char>, Seq<Seq<char>>>, program: Seq<char>)
    ensures
        installed.dom().contains(program) && installed[program].contains("latest"@) ==> tags_after_update(
            installed,
            program,
        ) == installed[program],
        !(installed.dom().contains(program) && installed[program].contains("latest"@)) ==> {
            let old_tags = if installed.dom().contains(program) {
                installed[program]
            } else {
                Seq::<Seq<char>>::empty()
            };
            &&& tags_after_update(installed, program).len() == old_tags.len() + 1
            &&& tags_after_update(installed, program)[0] == "latest"@
            &&& forall|k: int|
                0 <= k < old_tags.len() ==> #[trigger] tags_after_update(installed, program)[k + 1]
                    == old_tags[k]
        },
{
}

/// How a program is updated: its `latest` image is pulled again, and
/// `latest` joins its tags.
pub struct UpdatePlan {
    pub pull_args: Vec<String>,
    pub tags: Vec<String>,
}

/// Decides how `program` is brought to its latest version.
pub fn plan_update(program: &String, config: &AppConfig) -> (r: UpdatePlan)
    ensures
        texts(r.pull_args@) == seq!["pull"@, with_tag(program@, "latest"@)],
        tags_view(r.tags) == tags_after_update(config.installed_programs@, program@),
{
    match plan_install(program, &InstallOptions { tag: None }, config) {
        InstallPlan::Pull { pull_args, tags, .. } => UpdatePlan { pull_args, tags },
        InstallPlan::AlreadyInstalled { program_with_tag } => {
            let tags = match config.installed_programs.get(program) {
                Some(p) => copy_strings(p, 0, p.len()),
                None => Vec::new(),
            };
            let mut pull_args: Vec<String> = Vec::new();
            pull_args.push(String::from_str("pull"));
            pull_args.push(program_with_tag);
            proof {
                let installed = config.installed_programs@;
                assert(texts(pull_args@) =~= seq!["pull"@, with_tag(program@, "latest"@)]);
                assert(installed.dom().contains(program@));
            }
            assert(tags_view(tags) =~= tags_after_update(config.installed_programs@, program@));
            UpdatePlan { pull_args, tags }
        },
    }
}

/// The help text of `install`.
pub open spec fn install_usage() -> Seq<char> {
    "Usage: dpm install [OPTIONS] PROGRAM\n\nInstall a program as a Docker container.\n\nOptions:\n  -h, --help       Show this help message and exit.\n  -t, --tag TAG    Install the image tagged TAG (default: latest).\n"@
}

/// The help text of `install`.
pub fn usage() -> (r: &'static str)
    ensures
        r@ == install_usage(),
{
    "Usage: dpm install [OPTIONS] PROGRAM\n\nInstall a program as a Docker container.\n\nOptions:\n  -h, --help       Show this help message and exit.\n  -t, --tag TAG    Install the image tagged TAG (default: latest).\n"
}

} // verus!
