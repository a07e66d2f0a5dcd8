use vstd::prelude::*;

use crate::text::texts;

verus! {

/// What `update` is asked to do.
pub enum UpdateCommand {
    /// Download the sources file again.
    Sources,
    /// Bring `program` to its latest image.
    Program { program: String },
}

/// Reads what `update` is asked to do: with a program named after it,
/// update that program; without, update the sources.
pub fn run(args: &Vec<String>, options_index: usize) -> (r: UpdateCommand)
    ensures
        options_index < args.len() ==> (r matches UpdateCommand::Program { program } && program@
            == texts(args@)[options_index as int]),
        options_index >= args.len() ==> r is Sources,
{
    if options_index < args.len() {
        UpdateCommand::Program { program: args[options_index].clone() }
    } else {
        UpdateCommand::Sources
    }
}

} // verus!
