use vstd::prelude::*;
use vstd::string::*;

use crate::cli::install::{chosen_tag, opt_text, with_tag, with_tag_text, InstallOptions};
use crate::text::{copy_strings, decimal, decimal_spec, texts};

verus! {

/// The user id of the running process, from `users::get_current_uid`.
///
/// Trusted, with nothing stated: the id depends on the process.
#[verifier::external_body]
fn current_uid() -> (r: u32) {
    users::get_current_uid()
}

/// The group id of the running process, from `users::get_current_gid`.
///
/// Trusted, with nothing stated: the id depends on the process.
#[verifier::external_body]
fn current_gid() -> (r: u32) {
    users::get_current_gid()
}

/// The `--user` argument that makes the container run as `uid:gid`.
pub open spec fn user_flag(uid: u32, gid: u32) -> Seq<char> {
    "--user=\""@ + decimal_spec(uid as nat) + ":"@ + decimal_spec(gid as nat) + "\""@
}

/// The arguments after the program, given that it stands at
/// `program_index`.
pub open spec fn trailing_args(args: Seq<Seq<char>>, program_index: int) -> Seq<Seq<char>> {
    if program_index + 1 <= args.len() {
        args.skip(program_index + 1)
    } else {
        Seq::empty()
    }
}

/// The arguments of `docker run` for `program` from the image reference
/// `image` (name and tag), run as
/// `uid:gid` in a copy of the working directory `cwd` under `/tmp`, with
/// `rest` passed on to it.
pub open spec fn run_args_spec(
    cwd: Seq<char>,
    uid: u32,
    gid: u32,
    image: Seq<char>,
    program: Seq<char>,
    rest: Seq<Seq<char>>,
) -> Seq<Seq<char>> {
    let container_path = "/tmp"@ + cwd;
    let volume = cwd + ":"@ + container_path;
    seq![
        "run"@,
        "--workdir"@,
        container_path,
        user_flag(uid, gid),
        "--volume"@,
        volume,
        "--volume=\"/etc/group:/etc/group:ro\""@,
        "--volume=\"/etc/passwd:/etc/passwd:ro\""@,
        "--volume=\"/etc/shadow:/etc/shadow:ro\""@,
        "--rm"@,
        image,
        program,
    ] + rest
}

/// The image reference a program runs from: the image with the tag it was
/// installed with.
pub open spec fn run_image_ref(image: Seq<char>, options: InstallOptions) -> Seq<char> {
    with_tag(image, chosen_tag(opt_text(options.tag)))
}

/// The arguments of `docker run` for the user `uid:gid`, running `program`
/// from `image` with the tag chosen in `options`.
pub fn build_run_args(
    cwd: &str,
    uid: u32,
    gid: u32,
    image: &String,
    options: &InstallOptions,
    program: String,
    args: &Vec<String>,
    program_index: usize,
) -> (r: Vec<String>)
    ensures
        texts(r@) == run_args_spec(
            cwd@,
            uid,
            gid,
            run_image_ref(image@, *options),
            program@,
            trailing_args(texts(args@), program_index as int),
        ),
{
    let tag = match &options.tag {
        Some(t) => t.as_str(),
        None => "latest",
    };
    let image_ref = with_tag_text(image, tag);
    let container_path = String::from_str("/tmp").concat(cwd);
    let volume = String::from_str(cwd).concat(":").concat(container_path.as_str());
    let user = String::from_str("--user=\"").concat(decimal(uid).as_str()).concat(":").concat(
        decimal(gid).as_str(),
    ).concat("\"");
    let mut docker_args: Vec<String> = Vec::new();
    docker_args.push(String::from_str("run"));
    docker_args.push(String::from_str("--workdir"));
    docker_args.push(container_path);
    docker_args.push(user);
    docker_args.push(String::from_str("--volume"));
    docker_args.push(volume);
    docker_args.push(String::from_str("--volume=\"/etc/group:/etc/group:ro\""));
    docker_args.push(String::from_str("--volume=\"/etc/passwd:/etc/passwd:ro\""));
    docker_args.push(String::from_str("--volume=\"/etc/shadow:/etc/shadow:ro\""));
    docker_args.push(String::from_str("--rm"));
    docker_args.push(image_ref);
    docker_args.push(program);
    let ghost head = texts(docker_args@);
    if program_index < args.len() {
        let mut rest = copy_strings(args, program_index + 1, args.len());
        docker_args.append(&mut rest);
        assert(texts(args@).subrange(program_index + 1, args@.len() as int) =~= texts(
            args@,
        ).skip(program_index + 1));
    }
    assert(texts(docker_args@) =~= run_args_spec(
        cwd@,
        uid,
        gid,
        run_image_ref(image@, *options),
        program@,
        trailing_args(texts(args@), program_index as int),
    ));
    docker_args
}

/// The arguments of `docker run` for the user running dpm, running
/// `program` from `image` with the tag chosen in `options`.
pub fn docker_run_args(
    cwd: &str,
    image: &String,
    options: &InstallOptions,
    program: String,
    args: &Vec<String>,
    program_index: usize,
) -> (r: Vec<String>)
    ensures
        exists|uid: u32, gid: u32|
            texts(r@) == run_args_spec(
                cwd@,
                uid,
                gid,
                run_image_ref(image@, *options),
                program@,
                trailing_args(texts(args@), program_index as int),
            ),
{
    let uid = current_uid();
    let gid = current_gid();
    build_run_args(cwd, uid, gid, image, options, program, args, program_index)
}

/// `docker run` is given the program's image, then the program, then every
/// argument that followed the program on dpm's command line, unchanged and
/// in order, whatever they begin with.
pub proof fn run_passes_the_program_arguments_on(
    cwd: Seq<char>,
    uid: u32,
    gid: u32,
    image: Seq<char>,
    program: Seq<char>,
    args: Seq<Seq<char>>,
    program_index: int,
)
    requires
        0 <= program_index < args.len(),
    ensures
        run_args_spec(cwd, uid, gid, image, program, trailing_args(args, program_index)).len() == 12
            + args.len() - program_index - 1,
        run_args_spec(cwd, uid, gid, image, program, trailing_args(args, program_index))[10]
            == image,
        run_args_spec(cwd, uid, gid, image, program, trailing_args(args, program_index))[11]
            == program,
        forall|k: int|
            0 <= k < args.len() - program_index - 1 ==> #[trigger] run_args_spec(
                cwd,
                uid,
                gid,
                image,
                program,
                trailing_args(args, program_index),
            )[12 + k] == args[program_index + 1 + k],
{
}

/// The help text of `run`.
pub fn usage() -> (r: &'static str)
    ensures
        r@ == "lol"@,
{
    "lol"
}

} // verus!
