use std::ops::Range;

use vstd::prelude::*;
use vstd::string::*;
use vstd::std_specs::convert::FromSpecImpl;

use crate::text::{copy_strings, is_flag, starts_with_dash, texts};

verus! {

/// How many arguments follow an option's flag.
pub enum ArgLen {
    /// The arguments at these offsets after the flag, as far as they exist.
    _Range(Range<usize>),
    /// Exactly this many arguments; fewer is an error.
    Usize(usize),
}

impl Clone for ArgLen {
    fn clone(&self) -> (r: Self)
        ensures
            r == *self,
    {
        match self {
            ArgLen::_Range(r) => ArgLen::_Range(Range { start: r.start, end: r.end }),
            ArgLen::Usize(u) => ArgLen::Usize(*u),
        }
    }
}

impl Default for ArgLen {
    fn default() -> (r: Self)
        ensures
            r == ArgLen::Usize(0),
    {
        // Default argument length is 0
        ArgLen::Usize(0)
    }
}

/// The offsets, counted from the first argument after the flag, that an
/// `ArgLen` covers.
pub open spec fn arg_range(a: ArgLen) -> Range<usize> {
    match a {
        ArgLen::Usize(u) => Range { start: 0, end: u },
        ArgLen::_Range(r) => r,
    }
}

impl From<ArgLen> for Range<usize> {
    fn from(a: ArgLen) -> (r: Range<usize>)
        ensures
            r == arg_range(a),
    {
        match a {
            // A number of arguments becomes the offsets from 0 up to it
            ArgLen::Usize(u) => Range { start: 0, end: u },
            // A range is taken as it is
            ArgLen::_Range(r) => r,
        }
    }
}

impl FromSpecImpl<ArgLen> for Range<usize> {
    open spec fn obeys_from_spec() -> bool {
        true
    }

    open spec fn from_spec(v: ArgLen) -> Range<usize> {
        arg_range(v)
    }
}

/// How many arguments an option asks for: the length of its range.
pub open spec fn expected_count(a: ArgLen) -> int {
    let r = arg_range(a);
    if r.end > r.start {
        r.end - r.start
    } else {
        0
    }
}

/// The arguments handed to an option whose first argument would stand at
/// position `at`: those at the offsets of its range that exist in `args`.
pub open spec fn option_arguments(args: Seq<Seq<char>>, a: ArgLen, at: int) -> Seq<Seq<char>> {
    let r = arg_range(a);
    let first = at + r.start;
    let last = if at + r.end < args.len() {
        at + r.end
    } else {
        args.len() as int
    };
    if first < last {
        args.subrange(first, last)
    } else {
        seq![]
    }
}

/// An option the command line may hold: the flags that name it and the
/// arguments that follow it. What is done when it occurs is up to the
/// caller, which is told by `next_option_step`.
pub struct OptionHandler {
    /// List of flags associated with this option handler
    pub for_flag: Vec<&'static str>,
    /// Expected argument length for this option handler
    pub arg_len: ArgLen,
}

/// An option as the contracts see it.
pub struct HandlerView {
    pub flags: Seq<Seq<char>>,
    pub arg_len: ArgLen,
}

impl View for OptionHandler {
    type V = HandlerView;

    open spec fn view(&self) -> HandlerView {
        HandlerView { flags: self.for_flag@.map_values(|f: &'static str| f@), arg_len: self.arg_len }
    }
}

impl OptionHandler {
    pub fn new(for_flag: Vec<&'static str>, arg_len: ArgLen) -> (r: Self)
        ensures
            r.for_flag@ == for_flag@,
            r.arg_len == arg_len,
    {
        OptionHandler { for_flag: for_flag, arg_len: arg_len }
    }
}

/// The views of a list of options.
pub open spec fn handler_views(hs: Seq<OptionHandler>) -> Seq<HandlerView> {
    hs.map_values(|h: OptionHandler| h@)
}

/// Whether `arg` is one of the flags of `h`.
pub open spec fn accepts(h: HandlerView, arg: Seq<char>) -> bool {
    h.flags.contains(arg)
}

/// The first option in `hs` that `arg` names.
pub open spec fn handler_for(hs: Seq<HandlerView>, arg: Seq<char>) -> Option<int>
    decreases hs.len(),
{
    if hs.len() == 0 {
        None
    } else if accepts(hs[0], arg) {
        Some(0)
    } else {
        match handler_for(hs.drop_first(), arg) {
            Some(k) => Some(k + 1),
            None => None,
        }
    }
}

proof fn lemma_handler_for(hs: Seq<HandlerView>, arg: Seq<char>)
    ensures
        match handler_for(hs, arg) {
            Some(k) => 0 <= k < hs.len() && accepts(hs[k], arg) && forall|j: int|
                0 <= j < k ==> !accepts(#[trigger] hs[j], arg),
            None => forall|j: int| 0 <= j < hs.len() ==> !accepts(#[trigger] hs[j], arg),
        },
    decreases hs.len(),
{
    if hs.len() > 0 && !accepts(hs[0], arg) {
        lemma_handler_for(hs.drop_first(), arg);
        assert forall|j: int| 1 <= j < hs.len() implies hs[j] == hs.drop_first()[j - 1] by {}
    }
}

/// What the option parser does next, as the contracts see it.
pub enum StepView {
    Finished { added_index: int },
    UnknownOption { flag: Seq<char> },
    MissingArguments { flag: Seq<char>, expected: int, got: int },
    Invoke { handler: int, arguments: Seq<Seq<char>>, resume_index: int },
}

/// What the option parser does next.
pub enum OptionStep {
    /// No option stands at the current position: `added_index` arguments
    /// were taken by options.
    Finished { added_index: usize },
    /// The flag at the current position names no option.
    UnknownOption { flag: String },
    /// The option named by `flag` asks for `expected` arguments and only
    /// `got` follow it.
    MissingArguments { flag: String, expected: usize, got: usize },
    /// Run the option `handler` on `arguments`; if it lets parsing go on,
    /// the next step starts at `resume_index`.
    Invoke { handler: usize, arguments: Vec<String>, resume_index: usize },
}

impl View for OptionStep {
    type V = StepView;

    open spec fn view(&self) -> StepView {
        match self {
            OptionStep::Finished { added_index } => StepView::Finished {
                added_index: *added_index as int,
            },
            OptionStep::UnknownOption { flag } => StepView::UnknownOption { flag: flag@ },
            OptionStep::MissingArguments { flag, expected, got } => StepView::MissingArguments {
                flag: flag@,
                expected: *expected as int,
                got: *got as int,
            },
            OptionStep::Invoke { handler, arguments, resume_index } => StepView::Invoke {
                handler: *handler as int,
                arguments: texts(arguments@),
                resume_index: *resume_index as int,
            },
        }
    }
}

/// The step the parser takes when the options start at `start` in `args`
/// and `added` arguments after that have been consumed: stop at the first
/// argument that is not a flag, fail on a flag that names no option or on
/// an option with too few arguments, and otherwise hand the option its
/// arguments.
pub open spec fn step_spec(args: Seq<Seq<char>>, hs: Seq<HandlerView>, start: int, added: int) -> StepView {
    let idx = start + added;
    if idx >= args.len() || !is_flag(args[idx]) {
        StepView::Finished { added_index: added }
    } else {
        match handler_for(hs, args[idx]) {
            None => StepView::UnknownOption { flag: args[idx] },
            Some(k) => {
                let a = hs[k].arg_len;
                let opts = option_arguments(args, a, idx + 1);
                if opts.len() < expected_count(a) && a is Usize {
                    StepView::MissingArguments {
                        flag: args[idx],
                        expected: expected_count(a),
                        got: opts.len() as int,
                    }
                } else {
                    StepView::Invoke {
                        handler: k,
                        arguments: opts,
                        resume_index: added + 1 + opts.len(),
                    }
                }
            },
        }
    }
}

/// Each step that runs an option moves forward and stays within `args`:
/// the parser ends after at most as many steps as there are arguments.
pub proof fn option_steps_progress(args: Seq<Seq<char>>, hs: Seq<HandlerView>, start: nat, added: nat)
    ensures
        step_spec(args, hs, start as int, added as int) matches StepView::Invoke { resume_index, .. }
            ==> added < resume_index && start + resume_index <= args.len(),
{
}

/// The parser stops only where no option stands: at the end of `args` or
/// at an argument that does not begin with `-`.
pub proof fn option_steps_finish_at_non_flag(
    args: Seq<Seq<char>>,
    hs: Seq<HandlerView>,
    start: nat,
    added: nat,
)
    ensures
        step_spec(args, hs, start as int, added as int) is Finished ==> (start + added
            >= args.len() || !is_flag(args[start + added as int])),
{
}

impl OptionStep {
    /// The error a step ends parsing with, if it ends it with one.
    pub fn failure(&self) -> (r: Option<crate::errors::Errors>)
        ensures
            r == match self {
                OptionStep::UnknownOption { .. } => Some(crate::errors::Errors::InvalidOption),
                OptionStep::MissingArguments { .. } => Some(crate::errors::Errors::MissingArgument),
                _ => None,
            },
    {
        match self {
            OptionStep::UnknownOption { .. } => Some(crate::errors::Errors::InvalidOption),
            OptionStep::MissingArguments { .. } => Some(crate::errors::Errors::MissingArgument),
            _ => None,
        }
    }
}

fn flag_matches(flag: &'static str, arg: &String) -> (r: bool)
    ensures
        r == (flag@ == arg@),
{
    let f = flag.to_owned();
    f == *arg
}

fn handler_accepts(h: &OptionHandler, arg: &String) -> (r: bool)
    ensures
        r == accepts(h@, arg@),
{
    let n = h.for_flag.len();
    let mut k: usize = 0;
    while k < n
        invariant
            k <= n,
            n == h.for_flag@.len(),
            forall|j: int| 0 <= j < k ==> h.for_flag@[j]@ != arg@,
        decreases n - k,
    {
        if flag_matches(h.for_flag[k], arg) {
            assert(h@.flags[k as int] == arg@);
            return true;
        }
        k = k + 1;
    }
    assert forall|j: int| 0 <= j < h@.flags.len() implies h@.flags[j] != arg@ by {}
    false
}

/// The next step of the option parser: the options start at `start_index`
/// in `args`, and `added_index` arguments after it have been consumed.
pub fn next_option_step(
    args: &Vec<String>,
    options: &Vec<OptionHandler>,
    start_index: usize,
    added_index: usize,
) -> (r: OptionStep)
    ensures
        r@ == step_spec(texts(args@), handler_views(options@), start_index as int, added_index as int),
        r matches OptionStep::Invoke { resume_index, .. } ==> added_index < resume_index
            && start_index + resume_index <= args.len(),
        r matches OptionStep::Finished { added_index: n } ==> n == added_index,
{
    let ghost a = texts(args@);
    let ghost hs = handler_views(options@);
    let len = args.len();
    if added_index >= len || start_index >= len - added_index {
        return OptionStep::Finished { added_index };
    }
    let idx = start_index + added_index;
    let arg = &args[idx];
    if !starts_with_dash(arg) {
        return OptionStep::Finished { added_index };
    }
    let n = options.len();
    let mut k: usize = 0;
    let mut found = false;
    while k < n && !found
        invariant
            k <= n,
            n == options@.len(),
            idx < len == args@.len(),
            hs == handler_views(options@),
            hs.len() == n,
            found ==> k < n && accepts(hs[k as int], arg@),
            forall|j: int| 0 <= j < k ==> !accepts(#[trigger] hs[j], arg@),
        decreases n - k + (if found { 0int } else { 1int }),
    {
        if handler_accepts(&options[k], arg) {
            found = true;
        } else {
            k = k + 1;
        }
    }
    proof {
        lemma_handler_for(hs, a[idx as int]);
        assert(a[idx as int] == arg@);
    }
    if !found {
        return OptionStep::UnknownOption { flag: arg.clone() };
    }
    proof {
        match handler_for(hs, a[idx as int]) {
            Some(k2) => {
                if k2 < k {
                    assert(!accepts(hs[k2], arg@));
                } else if k2 > k {
                    assert(!accepts(hs[k as int], arg@));
                }
            },
            None => {
                assert(!accepts(hs[k as int], arg@));
            },
        }
    }
    let (lo, hi) = match &options[k].arg_len {
        ArgLen::Usize(u) => (0usize, *u),
        ArgLen::_Range(r) => (r.start, r.end),
    };
    let must_fill = match &options[k].arg_len {
        ArgLen::Usize(_) => true,
        ArgLen::_Range(_) => false,
    };
    let at = idx + 1;
    let avail = len - at;
    let expected = if hi > lo {
        hi - lo
    } else {
        0
    };
    let got = if hi <= lo || lo >= avail {
        0
    } else if hi < avail {
        hi - lo
    } else {
        avail - lo
    };
    if got < expected && must_fill {
        return OptionStep::MissingArguments { flag: arg.clone(), expected, got };
    }
    let arguments = if got == 0 {
        Vec::new()
    } else {
        copy_strings(args, at + lo, at + lo + got)
    };
    proof {
        let opts = option_arguments(a, hs[k as int].arg_len, at as int);
        assert(texts(arguments@) =~= opts);
    }
    OptionStep::Invoke { handler: k, arguments, resume_index: added_index + 1 + got }
}

/// One run of an option: the option, the arguments it was given, and what
/// it answered (go on, stop, or an error).
pub type OptionCall = (usize, Vec<String>, Result<bool, crate::errors::Errors>);

/// What reading the options comes to when the options that run answer as
/// `calls` says, or `None` when `calls` is not the runs the parser makes:
/// an option that answers `true` lets reading go on, `false` ends it with
/// `Ok(None)`, an error ends it with that error; an unknown flag ends it
/// with `InvalidOption`, missing arguments with `MissingArgument`, and the
/// end of the options with the number of arguments they took.
pub open spec fn handled_spec(
    args: Seq<Seq<char>>,
    hs: Seq<HandlerView>,
    start: nat,
    added: nat,
    calls: Seq<OptionCall>,
) -> Option<Result<Option<usize>, crate::errors::Errors>>
    decreases calls.len(),
{
    match step_spec(args, hs, start as int, added as int) {
        StepView::Finished { added_index } => if calls.len() == 0 {
            Some(Ok(Some(added_index as usize)))
        } else {
            None
        },
        StepView::UnknownOption { .. } => if calls.len() == 0 {
            Some(Err(crate::errors::Errors::InvalidOption))
        } else {
            None
        },
        StepView::MissingArguments { .. } => if calls.len() == 0 {
            Some(Err(crate::errors::Errors::MissingArgument))
        } else {
            None
        },
        StepView::Invoke { handler, arguments, resume_index } => {
            if calls.len() == 0 || calls[0].0 != handler || texts(calls[0].1@) != arguments {
                None
            } else {
                match calls[0].2 {
                    Ok(true) => handled_spec(args, hs, start, resume_index as nat, calls.drop_first()),
                    Ok(false) => if calls.len() == 1 {
                        Some(Ok(None))
                    } else {
                        None
                    },
                    Err(e) => if calls.len() == 1 {
                        Some(Err(e))
                    } else {
                        None
                    },
                }
            }
        },
    }
}

/// Reads the options that start at `start_index`, running `handler` on
/// each option found (with its index in `options` and its arguments) as
/// soon as it is found. The result is `Ok(Some(n))` when the options took
/// `n` arguments, `Ok(None)` when an option answered that the program is
/// to stop, and an error when an option failed or the options are wrong.
pub fn handle_options<F: Fn(usize, &Vec<String>) -> Result<bool, crate::errors::Errors>>(
    args: &Vec<String>,
    options: &Vec<OptionHandler>,
    start_index: usize,
    handler: F,
) -> (r: Result<Option<usize>, crate::errors::Errors>)
    requires
        forall|h: usize, v: Vec<String>| call_requires(handler, (h, &v)),
    ensures
        exists|calls: Seq<OptionCall>|
            {
                &&& handled_spec(
                    texts(args@),
                    handler_views(options@),
                    start_index as nat,
                    0,
                    calls,
                ) == Some(r)
                &&& forall|k: int|
                    0 <= k < calls.len() ==> call_ensures(
                        handler,
                        (calls[k].0, &calls[k].1),
                        #[trigger] calls[k].2,
                    )
            },
{
    let ghost a = texts(args@);
    let ghost hs = handler_views(options@);
    let mut added: usize = 0;
    let ghost mut calls: Seq<OptionCall> = Seq::empty();
    loop
        invariant
            a == texts(args@),
            hs == handler_views(options@),
            forall|h: usize, v: Vec<String>| call_requires(handler, (h, &v)),
            forall|rest: Seq<OptionCall>|
                #[trigger] handled_spec(a, hs, start_index as nat, 0, calls + rest) == handled_spec(
                    a,
                    hs,
                    start_index as nat,
                    added as nat,
                    rest,
                ),
            forall|k: int|
                0 <= k < calls.len() ==> call_ensures(
                    handler,
                    (calls[k].0, &calls[k].1),
                    #[trigger] calls[k].2,
                ),
        decreases args.len() - added,
    {
        let step = next_option_step(args, options, start_index, added);
        proof {
            assert(calls + Seq::<OptionCall>::empty() =~= calls);
            assert(handled_spec(a, hs, start_index as nat, 0, calls + Seq::<OptionCall>::empty())
                == handled_spec(a, hs, start_index as nat, added as nat, Seq::<OptionCall>::empty()));
        }
        match step {
            OptionStep::Finished { added_index } => {
                return Ok(Some(added_index));
            },
            OptionStep::UnknownOption { .. } => {
                return Err(crate::errors::Errors::InvalidOption);
            },
            OptionStep::MissingArguments { .. } => {
                return Err(crate::errors::Errors::MissingArgument);
            },
            OptionStep::Invoke { handler: h, arguments, resume_index } => {
                let outcome = handler(h, &arguments);
                let ghost c: OptionCall = (h, arguments, outcome);
                proof {
                    let one = seq![c];
                    assert(one.drop_first() =~= Seq::<OptionCall>::empty());
                    assert(calls + one =~= calls.push(c));
                    assert(handled_spec(a, hs, start_index as nat, 0, calls + one) == handled_spec(
                        a,
                        hs,
                        start_index as nat,
                        added as nat,
                        one,
                    ));
                    assert forall|k: int| 0 <= k < calls.push(c).len() implies call_ensures(
                        handler,
                        (calls.push(c)[k].0, &calls.push(c)[k].1),
                        #[trigger] calls.push(c)[k].2,
                    ) by {
                        if k < calls.len() {
                            assert(calls.push(c)[k] == calls[k]);
                        }
                    }
                }
                match outcome {
                    Ok(true) => {
                        proof {
                            assert forall|rest: Seq<OptionCall>| #[trigger]
                                handled_spec(a, hs, start_index as nat, 0, calls.push(c) + rest)
                                    == handled_spec(
                                    a,
                                    hs,
                                    start_index as nat,
                                    resume_index as nat,
                                    rest,
                                ) by {
                                let tail = seq![c] + rest;
                                assert(calls.push(c) + rest =~= calls + tail);
                                assert(tail.drop_first() =~= rest);
                                assert(handled_spec(a, hs, start_index as nat, 0, calls + tail)
                                    == handled_spec(a, hs, start_index as nat, added as nat, tail));
                            }
                            calls = calls.push(c);
                        }
                        added = resume_index;
                    },
                    Ok(false) => {
                        return Ok(None);
                    },
                    Err(e) => {
                        return Err(e);
                    },
                }
            },
        }
    }
}

/// The tag that the arguments of a tag option give: the first of them, or
/// `latest` where there is none.
pub open spec fn tag_argument(arguments: Seq<Seq<char>>) -> Seq<char> {
    if arguments.len() > 0 {
        arguments[0]
    } else {
        "latest"@
    }
}

fn tag_from_arguments(list: &Vec<String>) -> (r: String)
    ensures
        r@ == tag_argument(texts(list@)),
{
    if list.len() > 0 {
        list[0].clone()
    } else {
        String::from_str("latest")
    }
}

/// The outcome of reading options, as the contracts see it.
pub enum ParseView {
    Proceed { added_index: int, tag: Option<Seq<char>> },
    Stop { handler: int },
    Reject { step: StepView },
}

/// The outcome of reading options where one option sets a tag and lets
/// reading go on, and every other option ends the program once it has run.
pub enum ParseOutcome {
    /// The options took `added_index` arguments; `tag` is the last tag set.
    Proceed { added_index: usize, tag: Option<String> },
    /// The option `handler` ran and ends the program.
    Stop { handler: usize },
    /// The options are wrong, as `step` says.
    Reject { step: OptionStep },
}

impl View for ParseOutcome {
    type V = ParseView;

    open spec fn view(&self) -> ParseView {
        match self {
            ParseOutcome::Proceed { added_index, tag } => ParseView::Proceed {
                added_index: *added_index as int,
                tag: match tag {
                    Some(t) => Some(t@),
                    None => None,
                },
            },
            ParseOutcome::Stop { handler } => ParseView::Stop { handler: *handler as int },
            ParseOutcome::Reject { step } => ParseView::Reject { step: step@ },
        }
    }
}

/// Reading the options from position `start` on, `added` arguments in,
/// with `tag` set so far: the option `tag_handler` sets the tag and reading
/// goes on, any other option stops, and the first argument that is no
/// option ends the options.
pub open spec fn parse_spec(
    args: Seq<Seq<char>>,
    hs: Seq<HandlerView>,
    start: nat,
    added: nat,
    tag_handler: int,
    tag: Option<Seq<char>>,
) -> ParseView
    decreases args.len() - added,
{
    match step_spec(args, hs, start as int, added as int) {
        StepView::Finished { added_index } => ParseView::Proceed { added_index, tag },
        StepView::Invoke { handler, arguments, resume_index } => {
            if handler != tag_handler {
                ParseView::Stop { handler }
            } else {
                proof {
                    option_steps_progress(args, hs, start, added);
                }
                parse_spec(
                    args,
                    hs,
                    start,
                    resume_index as nat,
                    tag_handler,
                    Some(tag_argument(arguments)),
                )
            }
        },
        step => ParseView::Reject { step },
    }
}

/// Reads the options that start at `start_index`, where the option
/// `tag_handler` sets a tag and every other option stops the program.
pub fn parse_options(
    args: &Vec<String>,
    options: &Vec<OptionHandler>,
    start_index: usize,
    tag_handler: usize,
) -> (r: ParseOutcome)
    ensures
        r@ == parse_spec(
            texts(args@),
            handler_views(options@),
            start_index as nat,
            0,
            tag_handler as int,
            None,
        ),
        r matches ParseOutcome::Proceed { added_index, .. } ==> added_index == 0 || start_index
            + added_index <= args.len(),
{
    let ghost a = texts(args@);
    let ghost hs = handler_views(options@);
    let mut added: usize = 0;
    let mut tag: Option<String> = None;
    loop
        invariant
            a == texts(args@),
            hs == handler_views(options@),
            added == 0 || start_index + added <= args.len(),
            parse_spec(a, hs, start_index as nat, 0, tag_handler as int, None) == parse_spec(
                a,
                hs,
                start_index as nat,
                added as nat,
                tag_handler as int,
                match tag {
                    Some(t) => Some(t@),
                    None => None,
                },
            ),
        decreases args.len() - added,
    {
        let step = next_option_step(args, options, start_index, added);
        match step {
            OptionStep::Finished { added_index } => {
                return ParseOutcome::Proceed { added_index, tag };
            },
            OptionStep::Invoke { handler, arguments, resume_index } => {
                if handler != tag_handler {
                    return ParseOutcome::Stop { handler };
                }
                tag = Some(tag_from_arguments(&arguments));
                added = resume_index;
            },
            _ => {
                return ParseOutcome::Reject { step };
            },
        }
    }
}

} // verus!
