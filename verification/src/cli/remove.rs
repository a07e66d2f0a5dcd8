use vstd::prelude::*;
use vstd::string::*;

use crate::cli::install::{pull_outcome_spec, with_tag, with_tag_text};
use crate::configuration_manager::AppConfig;
use crate::errors::Errors;
use crate::text::texts;

verus! {

/// What `remove` is asked to do.
pub enum RemoveCommand {
    /// No program follows `remove`.
    MissingProgram,
    /// Remove `program`.
    Remove { program: String },
}

/// Reads what `remove` is asked to do: the program follows it.
pub fn run(args: &Vec<String>, options_index: usize) -> (r: RemoveCommand)
    ensures
        options_index < args.len() ==> (r matches RemoveCommand::Remove { program } && program@
            == texts(args@)[options_index as int]),
        options_index >= args.len() ==> r is MissingProgram,
{
    if options_index < args.len() {
        RemoveCommand::Remove { program: args[options_index].clone() }
    } else {
        RemoveCommand::MissingProgram
    }
}

/// The arguments of `docker rmi` that remove every recorded tag of
/// `program`.
pub open spec fn rmi_args_spec(program: Seq<char>, tags: Seq<Seq<char>>) -> Seq<Seq<char>> {
    seq!["rmi"@] + tags.map_values(|t: Seq<char>| with_tag(program, t))
}

/// `docker rmi` is given one `program:tag` reference for each recorded tag,
/// in the order the tags are recorded, and nothing else.
pub proof fn rmi_removes_each_recorded_tag(program: Seq<char>, tags: Seq<Seq<char>>)
    ensures
        rmi_args_spec(program, tags).len() == tags.len() + 1,
        rmi_args_spec(program, tags)[0] == "rmi"@,
        forall|k: int|
            0 <= k < tags.len() ==> #[trigger] rmi_args_spec(program, tags)[k + 1] == program
                + seq![':'] + tags[k],
{
    reveal_strlit(":");
}

/// How a program is removed.
pub enum RemovePlan {
    /// dpm has not installed it.
    NotInstalled,
    /// Remove its images with `rmi_args`, then forget it.
    Remove { rmi_args: Vec<String> },
}

/// Decides how `program` is removed: every image tag recorded for it is
/// removed; a program dpm has not installed is left alone.
pub fn plan_remove(program: &String, config: &AppConfig) -> (r: RemovePlan)
    ensures
        r is Remove <==> config.installed_programs@.dom().contains(program@),
        r matches RemovePlan::Remove { rmi_args } ==> texts(rmi_args@) == rmi_args_spec(
            program@,
            config.installed_programs@[program@],
        ),
{
    match config.installed_programs.get(program) {
        None => RemovePlan::NotInstalled,
        Some(tags) => {
            let ghost tv = texts(tags@);
            let mut rmi_args: Vec<String> = Vec::new();
            rmi_args.push(String::from_str("rmi"));
            let n = tags.len();
            let mut i: usize = 0;
            while i < n
                invariant
                    i <= n,
                    n == tags@.len(),
                    tv == texts(tags@),
                    texts(rmi_args@) =~= rmi_args_spec(program@, tv.take(i as int)),
                decreases n - i,
            {
                let image = with_tag_text(program, tags[i].as_str());
                let ghost before = rmi_args@;
                rmi_args.push(image);
                assert(texts(rmi_args@) =~= texts(before).push(image@));
                assert(tv.take(i + 1) =~= tv.take(i as int).push(tv[i as int]));
                i = i + 1;
            }
            assert(tv.take(n as int) =~= tv);
            RemovePlan::Remove { rmi_args }
        },
    }
}

/// Finishes a removal after `docker rmi` ended with `code`: the program is
/// forgotten only when Docker succeeded.
pub fn complete_remove(config: &mut AppConfig, program: &String, code: Option<i32>) -> (r: Result<(), Errors>)
    ensures
        r == pull_outcome_spec(code),
        r is Ok ==> final(config).installed_programs@ == old(config).installed_programs@.remove(program@),
        r is Err ==> final(config).installed_programs@ == old(config).installed_programs@,
        final(config).version == old(config).version,
{
    match code {
        Some(0) => {
            config.installed_programs.remove(program);
            Ok(())
        },
        _ => Err(Errors::CommandExecutionFailed),
    }
}

} // verus!
