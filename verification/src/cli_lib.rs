use vstd::prelude::*;
use vstd::string::*;

use crate::text::{is_flag, starts_with_dash, texts};

verus! {

/// Where the run of flags that starts at position `i` ends.
pub open spec fn flags_end(args: Seq<Seq<char>>, i: int) -> int
    decreases args.len() - i,
{
    if 0 <= i < args.len() && is_flag(args[i]) {
        flags_end(args, i + 1)
    } else {
        i
    }
}

/// The flags that follow the program name, up to the first argument that
/// is not a flag.
pub open spec fn leading_options(args: Seq<Seq<char>>) -> Seq<Seq<char>> {
    if args.len() <= 1 {
        Seq::empty()
    } else {
        args.subrange(1, flags_end(args, 1))
    }
}

/// What the flags before the command ask for.
#[derive(PartialEq, Eq, Structural)]
pub enum StartupAction {
    /// Show the versions and exit.
    ShowVersion,
    /// Show the usage and exit.
    ShowHelp,
    /// Go on.
    Proceed,
}

/// What the flags before the command ask for: the versions if any of them
/// is `-v` or `--version`, else the usage if any is `-h` or `--help`;
/// other flags are passed over.
pub open spec fn startup_action(args: Seq<Seq<char>>) -> StartupAction {
    let options = leading_options(args);
    if options.contains("-v"@) || options.contains("--version"@) {
        StartupAction::ShowVersion
    } else if options.contains("-h"@) || options.contains("--help"@) {
        StartupAction::ShowHelp
    } else {
        StartupAction::Proceed
    }
}

/// Reads the flags before the command. Every answer but `Proceed` ends
/// the program once its text is shown.
pub fn filter_options(args: &Vec<String>) -> (r: StartupAction)
    ensures
        r == startup_action(texts(args@)),
{
    let ghost a = texts(args@);
    let n = args.len();
    if n <= 1 {
        return StartupAction::Proceed;
    }
    let version_short = String::from_str("-v");
    let version_long = String::from_str("--version");
    let help_short = String::from_str("-h");
    let help_long = String::from_str("--help");
    let mut version = false;
    let mut help = false;
    let mut i: usize = 1;
    assert(a.subrange(1, 1) =~= Seq::<Seq<char>>::empty());
    while i < n && starts_with_dash(&args[i])
        invariant
            1 <= i <= n,
            n == args@.len(),
            a == texts(args@),
            version_short@ == "-v"@,
            version_long@ == "--version"@,
            help_short@ == "-h"@,
            help_long@ == "--help"@,
            flags_end(a, 1) == flags_end(a, i as int),
            version == (a.subrange(1, i as int).contains("-v"@) || a.subrange(1, i as int).contains(
                "--version"@,
            )),
            help == (a.subrange(1, i as int).contains("-h"@) || a.subrange(1, i as int).contains(
                "--help"@,
            )),
        decreases n - i,
    {
        let arg = &args[i];
        let ghost before = a.subrange(1, i as int);
        let ghost after = a.subrange(1, i + 1);
        assert(after =~= before.push(a[i as int]));
        assert forall|x: Seq<char>| after.contains(x) <==> (before.contains(x) || a[i as int] == x) by {
            if after.contains(x) {
                let k = choose|k: int| 0 <= k < after.len() && after[k] == x;
                if k < before.len() {
                    assert(before[k] == x);
                }
            }
            if before.contains(x) {
                let k = choose|k: int| 0 <= k < before.len() && before[k] == x;
                assert(after[k] == x);
            }
            if a[i as int] == x {
                assert(after[before.len() as int] == x);
            }
        }
        if *arg == version_short || *arg == version_long {
            version = true;
        }
        if *arg == help_short || *arg == help_long {
            help = true;
        }
        i = i + 1;
    }
    assert(flags_end(a, i as int) == i);
    if version {
        StartupAction::ShowVersion
    } else if help {
        StartupAction::ShowHelp
    } else {
        StartupAction::Proceed
    }
}

proof fn lemma_flags_end(args: Seq<Seq<char>>, i: int)
    requires
        0 <= i <= args.len(),
    ensures
        i <= flags_end(args, i) <= args.len(),
        forall|j: int| i <= j < flags_end(args, i) ==> is_flag(#[trigger] args[j]),
    decreases args.len() - i,
{
    if i < args.len() && is_flag(args[i]) {
        lemma_flags_end(args, i + 1);
    }
}

proof fn lemma_leading(args: Seq<Seq<char>>, x: Seq<char>)
    requires
        args.len() > 1,
    ensures
        leading_options(args).contains(x) <==> exists|k: int|
            1 <= k < flags_end(args, 1) && #[trigger] args[k] == x,
{
    lemma_flags_end(args, 1);
    let l = leading_options(args);
    if l.contains(x) {
        let m = choose|m: int| 0 <= m < l.len() && l[m] == x;
        assert(args[m + 1] == x);
    }
    if exists|k: int| 1 <= k < flags_end(args, 1) && #[trigger] args[k] == x {
        let k = choose|k: int| 1 <= k < flags_end(args, 1) && #[trigger] args[k] == x;
        assert(l[k - 1] == x);
    }
}

/// A version flag among the flags before the command shows the versions,
/// whatever else is there.
pub proof fn version_flag_shows_version(args: Seq<Seq<char>>, k: int)
    requires
        1 <= k < flags_end(args, 1),
        args[k] == "-v"@ || args[k] == "--version"@,
    ensures
        startup_action(args) == StartupAction::ShowVersion,
{
    lemma_flags_end(args, 1);
    lemma_leading(args, "-v"@);
    lemma_leading(args, "--version"@);
}

/// A help flag (`-h` or `--help`) among the flags before the command shows
/// the usage, unless a version flag is there too.
pub proof fn help_flag_shows_help(args: Seq<Seq<char>>, k: int)
    requires
        1 <= k < flags_end(args, 1),
        args[k] == "-h"@ || args[k] == "--help"@,
        forall|j: int|
            1 <= j < flags_end(args, 1) ==> #[trigger] args[j] != "-v"@ && args[j] != "--version"@,
    ensures
        startup_action(args) == StartupAction::ShowHelp,
{
    lemma_flags_end(args, 1);
    lemma_leading(args, "-v"@);
    lemma_leading(args, "--version"@);
    lemma_leading(args, "-h"@);
    lemma_leading(args, "--help"@);
}

/// Without a version or help flag before the command, dpm goes on.
pub proof fn other_flags_proceed(args: Seq<Seq<char>>)
    requires
        forall|j: int|
            1 <= j < flags_end(args, 1) ==> #[trigger] args[j] != "-v"@ && args[j] != "--version"@
                && args[j] != "-h"@ && args[j] != "--help"@,
    ensures
        startup_action(args) == StartupAction::Proceed,
{
    if args.len() > 1 {
        lemma_leading(args, "-v"@);
        lemma_leading(args, "--version"@);
        lemma_leading(args, "-h"@);
        lemma_leading(args, "--help"@);
    }
}

} // verus!
