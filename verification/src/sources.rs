use vstd::prelude::*;
use vstd::string::*;

use crate::errors::Errors;
use crate::text::{contains_text, texts};

verus! {

/// The file of sources that dpm downloads when it has none.
pub const SOURCE_FILE_REMOTE: &'static str =
    "https://raw.githubusercontent.com/FlorianB-DE/dpm-sources/main/sources.yml";

/// The name of the sources file beside the configuration.
pub const SOURCE_FILE_NAME: &'static str = "sources";

/// A program that a source offers: the commands it provides and, where it
/// differs from the program's name, its image.
pub struct Program {
    pub commands: Vec<String>,
    pub image: Option<String>,
}

impl Default for Program {
    fn default() -> (r: Self)
        ensures
            r.commands@.len() == 0,
            r.image is None,
    {
        Program { commands: Vec::new(), image: None }
    }
}

/// A source: its name, the Docker namespace its images live in, and the
/// programs it offers under their names.
pub struct Source {
    pub name: String,
    pub programs: Vec<(String, Program)>,
}

/// All sources, in the order they are looked through.
pub struct SourcesFile {
    pub sources: Vec<Source>,
}

/// Whether `p` provides the command `program`.
pub open spec fn provides(p: Program, program: Seq<char>) -> bool {
    texts(p.commands@).contains(program)
}

/// The image of the program named `name`: its own image, or its name.
pub open spec fn image_of(name: Seq<char>, p: Program) -> Seq<char> {
    match p.image {
        Some(s) => s@,
        None => name,
    }
}

/// The image path of a program found in the source `source`.
pub open spec fn image_path(source: Seq<char>, name: Seq<char>, p: Program) -> Seq<char> {
    source + "/"@ + image_of(name, p)
}

/// The first program among `programs` that provides `program`, as an image
/// path under `source`.
pub open spec fn find_in_programs(
    program: Seq<char>,
    source: Seq<char>,
    programs: Seq<(String, Program)>,
) -> Option<Seq<char>>
    decreases programs.len(),
{
    if programs.len() == 0 {
        None
    } else if provides(programs[0].1, program) {
        Some(image_path(source, programs[0].0@, programs[0].1))
    } else {
        find_in_programs(program, source, programs.drop_first())
    }
}

/// The image path of the first program, in the order of the sources and
/// then of their programs, that provides `program`.
pub open spec fn find_in_sources(program: Seq<char>, sources: Seq<Source>) -> Option<Seq<char>>
    decreases sources.len(),
{
    if sources.len() == 0 {
        None
    } else {
        match find_in_programs(program, sources[0].name@, sources[0].programs@) {
            Some(r) => Some(r),
            None => find_in_sources(program, sources.drop_first()),
        }
    }
}

fn find_in_source(program: &String, source: &Source) -> (r: Option<String>)
    ensures
        r matches Some(s) ==> find_in_programs(program@, source.name@, source.programs@) == Some(
            s@,
        ),
        r is None ==> find_in_programs(program@, source.name@, source.programs@) is None,
{
    let n = source.programs.len();
    let mut j: usize = 0;
    assert(source.programs@.skip(0) =~= source.programs@);
    while j < n
        invariant
            j <= n,
            n == source.programs@.len(),
            find_in_programs(program@, source.name@, source.programs@) == find_in_programs(
                program@,
                source.name@,
                source.programs@.skip(j as int),
            ),
        decreases n - j,
    {
        let entry = &source.programs[j];
        if contains_text(&entry.1.commands, program) {
            let image = match &entry.1.image {
                Some(s) => s,
                None => &entry.0,
            };
            proof {
                reveal_strlit("/");
            }
            let path = source.name.clone().concat("/").concat(image.as_str());
            return Some(path);
        }
        assert(source.programs@.skip(j as int).drop_first() =~= source.programs@.skip(j + 1));
        j = j + 1;
    }
    None
}

/// The image path `source/image` of the first program that provides the
/// command `program`, if one does.
pub fn find_image_path(program: &String, sources: &SourcesFile) -> (r: Option<String>)
    ensures
        r matches Some(s) ==> find_in_sources(program@, sources.sources@) == Some(s@),
        r is None ==> find_in_sources(program@, sources.sources@) is None,
{
    let n = sources.sources.len();
    let mut i: usize = 0;
    assert(sources.sources@.skip(0) =~= sources.sources@);
    while i < n
        invariant
            i <= n,
            n == sources.sources@.len(),
            find_in_sources(program@, sources.sources@) == find_in_sources(
                program@,
                sources.sources@.skip(i as int),
            ),
        decreases n - i,
    {
        match find_in_source(program, &sources.sources[i]) {
            Some(path) => {
                return Some(path);
            },
            None => {},
        }
        assert(sources.sources@.skip(i as int).drop_first() =~= sources.sources@.skip(i + 1));
        i = i + 1;
    }
    None
}

/// The image that provides the command `program` under `sources`, or
/// `Errors::ProgramNotFound` when none does.
pub fn get_program_image(program: &String, sources: &SourcesFile) -> (r: Result<String, Errors>)
    ensures
        match find_in_sources(program@, sources.sources@) {
            Some(path) => r matches Ok(s) && s@ == path,
            None => r == Err::<String, Errors>(Errors::ProgramNotFound),
        },
{
    match find_image_path(program, sources) {
        Some(s) => Ok(s),
        None => Err(Errors::ProgramNotFound),
    }
}

/// The (command, image path) pairs the programs under `source` offer, in
/// order: every command of each program, with the program's image.
pub open spec fn program_listing(source: Seq<char>, programs: Seq<(String, Program)>) -> Seq<(Seq<char>, Seq<char>)>
    decreases programs.len(),
{
    if programs.len() == 0 {
        Seq::empty()
    } else {
        let p = programs[0];
        texts(p.1.commands@).map_values(|c: Seq<char>| (c, image_path(source, p.0@, p.1)))
            + program_listing(source, programs.drop_first())
    }
}

/// The (command, image path) pairs all sources offer, in the order they
/// are looked through.
pub open spec fn source_listing(sources: Seq<Source>) -> Seq<(Seq<char>, Seq<char>)>
    decreases sources.len(),
{
    if sources.len() == 0 {
        Seq::empty()
    } else {
        program_listing(sources[0].name@, sources[0].programs@) + source_listing(sources.drop_first())
    }
}

/// The view of a list of pairs of strings.
pub open spec fn pair_texts(v: Seq<(String, String)>) -> Seq<(Seq<char>, Seq<char>)> {
    v.map_values(|p: (String, String)| (p.0@, p.1@))
}

fn list_source(source: &Source, out: &mut Vec<(String, String)>)
    ensures
        pair_texts(final(out)@) == pair_texts(old(out)@) + program_listing(source.name@, source.programs@),
{
    let n = source.programs.len();
    let mut j: usize = 0;
    assert(source.programs@.skip(0) =~= source.programs@);
    while j < n
        invariant
            j <= n,
            n == source.programs@.len(),
            pair_texts(out@) + program_listing(source.name@, source.programs@.skip(j as int))
                =~= pair_texts(old(out)@) + program_listing(source.name@, source.programs@),
        decreases n - j,
    {
        let entry = &source.programs[j];
        let image = match &entry.1.image {
            Some(s) => s,
            None => &entry.0,
        };
        proof {
            reveal_strlit("/");
        }
        let path = source.name.clone().concat("/").concat(image.as_str());
        let ghost listing = texts(entry.1.commands@).map_values(
            |c: Seq<char>| (c, image_path(source.name@, entry.0@, entry.1)),
        );
        let ghost start = pair_texts(out@);
        let m = entry.1.commands.len();
        let mut k: usize = 0;
        while k < m
            invariant
                k <= m,
                m == entry.1.commands@.len(),
                path@ == image_path(source.name@, entry.0@, entry.1),
                listing == texts(entry.1.commands@).map_values(
                    |c: Seq<char>| (c, image_path(source.name@, entry.0@, entry.1)),
                ),
                pair_texts(out@) =~= start + listing.take(k as int),
            decreases m - k,
        {
            let ghost before = pair_texts(out@);
            out.push((entry.1.commands[k].clone(), path.clone()));
            assert(pair_texts(out@) =~= before.push(listing[k as int]));
            assert(listing.take(k + 1) =~= listing.take(k as int).push(listing[k as int]));
            k = k + 1;
        }
        assert(listing.take(m as int) =~= listing);
        assert(source.programs@.skip(j as int)[0] == source.programs@[j as int]);
        assert(source.programs@.skip(j as int).drop_first() =~= source.programs@.skip(j + 1));
        j = j + 1;
    }
    assert(source.programs@.skip(n as int) =~= Seq::<(String, Program)>::empty());
}

/// Every command the sources offer, with the image path it runs from, in
/// the order the sources are looked through.
pub fn list_programs(sources: &SourcesFile) -> (r: Vec<(String, String)>)
    ensures
        pair_texts(r@) == source_listing(sources.sources@),
{
    let mut out: Vec<(String, String)> = Vec::new();
    let n = sources.sources.len();
    let mut i: usize = 0;
    assert(sources.sources@.skip(0) =~= sources.sources@);
    while i < n
        invariant
            i <= n,
            n == sources.sources@.len(),
            pair_texts(out@) + source_listing(sources.sources@.skip(i as int)) =~= source_listing(
                sources.sources@,
            ),
        decreases n - i,
    {
        list_source(&sources.sources[i], &mut out);
        assert(sources.sources@.skip(i as int)[0] == sources.sources@[i as int]);
        assert(sources.sources@.skip(i as int).drop_first() =~= sources.sources@.skip(i + 1));
        i = i + 1;
    }
    assert(sources.sources@.skip(n as int) =~= Seq::<Source>::empty());
    out
}

proof fn lemma_find_in_programs(program: Seq<char>, source: Seq<char>, programs: Seq<(String, Program)>)
    ensures
        find_in_programs(program, source, programs) is None <==> forall|j: int|
            0 <= j < programs.len() ==> !provides(#[trigger] programs[j].1, program),
    decreases programs.len(),
{
    if programs.len() > 0 && !provides(programs[0].1, program) {
        lemma_find_in_programs(program, source, programs.drop_first());
        if find_in_programs(program, source, programs) is None {
            assert forall|j: int| 0 <= j < programs.len() implies !provides(
                #[trigger] programs[j].1,
                program,
            ) by {
                if j > 0 {
                    assert(programs[j] == programs.drop_first()[j - 1]);
                }
            }
        } else {
            let rest = programs.drop_first();
            let j = choose|j: int| 0 <= j < rest.len() && provides(#[trigger] rest[j].1, program);
            assert(programs[j + 1] == rest[j]);
        }
    }
}

/// A program is not found exactly when no program of any source provides
/// its command.
pub proof fn not_found_iff_nowhere_provided(program: Seq<char>, sources: Seq<Source>)
    ensures
        find_in_sources(program, sources) is None <==> forall|i: int, j: int|
            0 <= i < sources.len() && 0 <= j < sources[i].programs@.len() ==> !provides(
                #[trigger] sources[i].programs@[j].1,
                program,
            ),
    decreases sources.len(),
{
    if sources.len() > 0 {
        lemma_find_in_programs(program, sources[0].name@, sources[0].programs@);
        not_found_iff_nowhere_provided(program, sources.drop_first());
        let rest = sources.drop_first();
        if find_in_sources(program, sources) is None {
            assert forall|i: int, j: int|
                0 <= i < sources.len() && 0 <= j < sources[i].programs@.len() implies !provides(
                #[trigger] sources[i].programs@[j].1,
                program,
            ) by {
                if i > 0 {
                    assert(sources[i] == rest[i - 1]);
                }
            }
        } else if find_in_programs(program, sources[0].name@, sources[0].programs@) is None {
            let (i, j) = choose|i: int, j: int|
                0 <= i < rest.len() && 0 <= j < rest[i].programs@.len() && provides(
                    #[trigger] rest[i].programs@[j].1,
                    program,
                );
            assert(sources[i + 1] == rest[i]);
        }
    }
}

proof fn lemma_programs_exact(program: Seq<char>, source: Seq<char>, programs: Seq<(String, Program)>)
    ensures
        find_in_programs(program, source, programs) matches Some(path) ==> exists|j: int, k: int|
            0 <= j < programs.len() && 0 <= k < programs[j].1.commands@.len()
                && #[trigger] programs[j].1.commands@[k]@ == program && path == source + seq!['/']
                + match programs[j].1.image {
                Some(im) => im@,
                None => programs[j].0@,
            },
        find_in_programs(program, source, programs) is None ==> forall|j: int, k: int|
            0 <= j < programs.len() && 0 <= k < programs[j].1.commands@.len()
                ==> #[trigger] programs[j].1.commands@[k]@ != program,
    decreases programs.len(),
{
    reveal_strlit("/");
    if programs.len() > 0 {
        let p = programs[0];
        let rest = programs.drop_first();
        lemma_programs_exact(program, source, rest);
        if provides(p.1, program) {
            let k = choose|k: int| 0 <= k < texts(p.1.commands@).len() && texts(p.1.commands@)[k] == program;
            assert(programs[0].1.commands@[k]@ == program);
        } else {
            assert forall|k: int| 0 <= k < p.1.commands@.len() implies p.1.commands@[k]@ != program by {
                assert(texts(p.1.commands@)[k] == p.1.commands@[k]@);
            }
            if find_in_programs(program, source, programs) is Some {
                let (j, k) = choose|j: int, k: int|
                    0 <= j < rest.len() && 0 <= k < rest[j].1.commands@.len()
                        && #[trigger] rest[j].1.commands@[k]@ == program && find_in_programs(program, source, programs)->0
                        == source + seq!['/'] + match rest[j].1.image {
                        Some(im) => im@,
                        None => rest[j].0@,
                    };
                assert(programs[j + 1] == rest[j]);
                assert(programs[j + 1].1.commands@[k]@ == program);
            } else {
                assert forall|j: int, k: int|
                    0 <= j < programs.len() && 0 <= k < programs[j].1.commands@.len() implies #[trigger] programs[j].1.commands@[k]@
                        != program by {
                    if j > 0 {
                        assert(programs[j] == rest[j - 1]);
                        assert(rest[j - 1].1.commands@[k]@ != program);
                    } else {
                        assert(texts(p.1.commands@)[k] == p.1.commands@[k]@);
                    }
                }
            }
        }
    }
}

/// The image found for a command is that of a program one of whose
/// commands is exactly that name, written `source/image` with the
/// program's own image or else its name; and nothing is found exactly when
/// no program of any source has a command of that name.
pub proof fn found_image_comes_from_exact_command(program: Seq<char>, sources: Seq<Source>)
    ensures
        find_in_sources(program, sources) matches Some(path) ==> exists|i: int, j: int, k: int|
            0 <= i < sources.len() && 0 <= j < sources[i].programs@.len() && 0 <= k
                < sources[i].programs@[j].1.commands@.len()
                && #[trigger] sources[i].programs@[j].1.commands@[k]@ == program && path
                == sources[i].name@ + seq!['/'] + match sources[i].programs@[j].1.image {
                Some(im) => im@,
                None => sources[i].programs@[j].0@,
            },
        find_in_sources(program, sources) is None <==> forall|i: int, j: int, k: int|
            0 <= i < sources.len() && 0 <= j < sources[i].programs@.len() && 0 <= k
                < sources[i].programs@[j].1.commands@.len()
                ==> #[trigger] sources[i].programs@[j].1.commands@[k]@ != program,
    decreases sources.len(),
{
    if sources.len() > 0 {
        let s0 = sources[0];
        let rest = sources.drop_first();
        lemma_programs_exact(program, s0.name@, s0.programs@);
        found_image_comes_from_exact_command(program, rest);
        match find_in_programs(program, s0.name@, s0.programs@) {
            Some(path) => {
                let (j, k) = choose|j: int, k: int|
                    0 <= j < s0.programs@.len() && 0 <= k < s0.programs@[j].1.commands@.len()
                        && #[trigger] s0.programs@[j].1.commands@[k]@ == program && path == s0.name@
                        + seq!['/'] + match s0.programs@[j].1.image {
                        Some(im) => im@,
                        None => s0.programs@[j].0@,
                    };
                assert(sources[0].programs@[j].1.commands@[k]@ == program);
            },
            None => {
                if find_in_sources(program, rest) is Some {
                    let path = find_in_sources(program, rest)->0;
                    let (i, j, k) = choose|i: int, j: int, k: int|
                        0 <= i < rest.len() && 0 <= j < rest[i].programs@.len() && 0 <= k
                            < rest[i].programs@[j].1.commands@.len()
                            && #[trigger] rest[i].programs@[j].1.commands@[k]@ == program && path
                            == rest[i].name@ + seq!['/'] + match rest[i].programs@[j].1.image {
                            Some(im) => im@,
                            None => rest[i].programs@[j].0@,
                        };
                    assert(sources[i + 1] == rest[i]);
                    assert(sources[i + 1].programs@[j].1.commands@[k]@ == program);
                } else {
                    assert forall|i: int, j: int, k: int|
                        0 <= i < sources.len() && 0 <= j < sources[i].programs@.len() && 0 <= k
                            < sources[i].programs@[j].1.commands@.len() implies #[trigger] sources[i].programs@[j].1.commands@[k]@
                            != program by {
                        if i > 0 {
                            assert(sources[i] == rest[i - 1]);
                            assert(rest[i - 1].programs@[j].1.commands@[k]@ != program);
                        } else {
                            assert(s0.programs@[j].1.commands@[k]@ != program);
                        }
                    }
                }
            },
        }
    }
}

/// Whether one of the commands of `p` is exactly `command`.
pub open spec fn has_command(p: Program, command: Seq<char>) -> bool {
    exists|k: int| 0 <= k < p.commands@.len() && #[trigger] p.commands@[k]@ == command
}

/// The image path `source/image` of the program `name`: its own image, or
/// its name.
pub open spec fn path_of(source: Seq<char>, name: Seq<char>, p: Program) -> Seq<char> {
    source + seq!['/'] + match p.image {
        Some(im) => im@,
        None => name,
    }
}

proof fn lemma_programs_first(program: Seq<char>, source: Seq<char>, programs: Seq<(String, Program)>)
    ensures
        find_in_programs(program, source, programs) matches Some(path) ==> exists|j: int|
            0 <= j < programs.len() && has_command(#[trigger] programs[j].1, program) && path
                == path_of(source, programs[j].0@, programs[j].1) && forall|j2: int|
                0 <= j2 < j ==> !has_command(#[trigger] programs[j2].1, program),
        find_in_programs(program, source, programs) is None ==> forall|j: int|
            0 <= j < programs.len() ==> !has_command(#[trigger] programs[j].1, program),
    decreases programs.len(),
{
    reveal_strlit("/");
    if programs.len() > 0 {
        let p = programs[0];
        let rest = programs.drop_first();
        lemma_programs_first(program, source, rest);
        assert(provides(p.1, program) == has_command(p.1, program)) by {
            if provides(p.1, program) {
                let k = choose|k: int| 0 <= k < texts(p.1.commands@).len() && texts(p.1.commands@)[k] == program;
                assert(p.1.commands@[k]@ == program);
            }
            if has_command(p.1, program) {
                let k = choose|k: int| 0 <= k < p.1.commands@.len() && #[trigger] p.1.commands@[k]@ == program;
                assert(texts(p.1.commands@)[k] == program);
            }
        }
        if !provides(p.1, program) {
            if find_in_programs(program, source, programs) is Some {
                let path = find_in_programs(program, source, programs)->0;
                let j = choose|j: int|
                    0 <= j < rest.len() && has_command(#[trigger] rest[j].1, program) && path
                        == path_of(source, rest[j].0@, rest[j].1) && forall|j2: int|
                        0 <= j2 < j ==> !has_command(#[trigger] rest[j2].1, program);
                assert(programs[j + 1] == rest[j]);
                assert forall|j2: int| 0 <= j2 < j + 1 implies !has_command(#[trigger] programs[j2].1, program) by {
                    if j2 > 0 {
                        assert(programs[j2] == rest[j2 - 1]);
                    }
                }
            } else {
                assert forall|j: int| 0 <= j < programs.len() implies !has_command(#[trigger] programs[j].1, program) by {
                    if j > 0 {
                        assert(programs[j] == rest[j - 1]);
                    }
                }
            }
        }
    }
}

/// The image found for a command comes from the first program, in the
/// order of the sources and then of their programs, that has exactly that
/// command: no program before it has it.
pub proof fn found_image_is_the_first_match(program: Seq<char>, sources: Seq<Source>)
    ensures
        find_in_sources(program, sources) matches Some(path) ==> exists|i: int, j: int|
            0 <= i < sources.len() && 0 <= j < sources[i].programs@.len() && has_command(
                #[trigger] sources[i].programs@[j].1,
                program,
            ) && path == path_of(sources[i].name@, sources[i].programs@[j].0@, sources[i].programs@[j].1)
                && (forall|i2: int, j2: int|
                0 <= i2 < i && 0 <= j2 < sources[i2].programs@.len() ==> !has_command(
                    #[trigger] sources[i2].programs@[j2].1,
                    program,
                )) && (forall|j2: int|
                0 <= j2 < j ==> !has_command(#[trigger] sources[i].programs@[j2].1, program)),
    decreases sources.len(),
{
    if sources.len() > 0 {
        let s0 = sources[0];
        let rest = sources.drop_first();
        lemma_programs_first(program, s0.name@, s0.programs@);
        found_image_is_the_first_match(program, rest);
        match find_in_programs(program, s0.name@, s0.programs@) {
            Some(path) => {
                let j = choose|j: int|
                    0 <= j < s0.programs@.len() && has_command(#[trigger] s0.programs@[j].1, program) && path
                        == path_of(s0.name@, s0.programs@[j].0@, s0.programs@[j].1) && forall|j2: int|
                        0 <= j2 < j ==> !has_command(#[trigger] s0.programs@[j2].1, program);
                assert(has_command(sources[0].programs@[j].1, program));
            },
            None => {
                if find_in_sources(program, rest) is Some {
                    let path = find_in_sources(program, rest)->0;
                    let (i, j) = choose|i: int, j: int|
                        0 <= i < rest.len() && 0 <= j < rest[i].programs@.len() && has_command(
                            #[trigger] rest[i].programs@[j].1,
                            program,
                        ) && path == path_of(rest[i].name@, rest[i].programs@[j].0@, rest[i].programs@[j].1)
                            && (forall|i2: int, j2: int|
                            0 <= i2 < i && 0 <= j2 < rest[i2].programs@.len() ==> !has_command(
                                #[trigger] rest[i2].programs@[j2].1,
                                program,
                            )) && (forall|j2: int|
                            0 <= j2 < j ==> !has_command(#[trigger] rest[i].programs@[j2].1, program));
                    assert(sources[i + 1] == rest[i]);
                    assert(has_command(sources[i + 1].programs@[j].1, program));
                    assert forall|i2: int, j2: int|
                        0 <= i2 < i + 1 && 0 <= j2 < sources[i2].programs@.len() implies !has_command(
                        #[trigger] sources[i2].programs@[j2].1,
                        program,
                    ) by {
                        if i2 > 0 {
                            assert(sources[i2] == rest[i2 - 1]);
                        }
                    }
                }
            },
        }
    }
}

/// The pair `pair` is command `k` of program `j` of `programs`, with that
/// program's image path in source `source`.
pub open spec fn offered_at(
    source: Seq<char>,
    programs: Seq<(String, Program)>,
    pair: (Seq<char>, Seq<char>),
    j: int,
    k: int,
) -> bool {
    0 <= j < programs.len() && 0 <= k < programs[j].1.commands@.len() && pair.0
        == programs[j].1.commands@[k]@ && pair.1 == path_of(source, programs[j].0@, programs[j].1)
}

/// Some program of `programs` has the command `pair.0`, and `pair.1` is its
/// image path in source `source`.
pub open spec fn offered_by(
    source: Seq<char>,
    programs: Seq<(String, Program)>,
    pair: (Seq<char>, Seq<char>),
) -> bool {
    exists|j: int, k: int| #[trigger] offered_at(source, programs, pair, j, k)
}

/// The pair `pair` is command `k` of program `j` of source `i`, with that
/// program's image path.
pub open spec fn listed_at(sources: Seq<Source>, pair: (Seq<char>, Seq<char>), i: int, j: int, k: int) -> bool {
    0 <= i < sources.len() && offered_at(sources[i].name@, sources[i].programs@, pair, j, k)
}

/// Some program of some source has the command `pair.0`, and `pair.1` is its
/// image path.
pub open spec fn offered_in(sources: Seq<Source>, pair: (Seq<char>, Seq<char>)) -> bool {
    exists|i: int, j: int, k: int| #[trigger] listed_at(sources, pair, i, j, k)
}

proof fn lemma_program_listing(source: Seq<char>, programs: Seq<(String, Program)>)
    ensures
        forall|m: int|
            #![trigger program_listing(source, programs)[m]]
            0 <= m < program_listing(source, programs).len() ==> offered_by(
                source,
                programs,
                program_listing(source, programs)[m],
            ),
        forall|j: int, k: int|
            0 <= j < programs.len() && 0 <= k < programs[j].1.commands@.len() ==> program_listing(
                source,
                programs,
            ).contains((#[trigger] programs[j].1.commands@[k]@, path_of(source, programs[j].0@, programs[j].1))),
    decreases programs.len(),
{
    reveal_strlit("/");
    if programs.len() > 0 {
        let p = programs[0];
        let rest = programs.drop_first();
        lemma_program_listing(source, rest);
        let first = texts(p.1.commands@).map_values(|c: Seq<char>| (c, image_path(source, p.0@, p.1)));
        let l = program_listing(source, programs);
        let lr = program_listing(source, rest);
        assert(l == first + lr);
        assert(image_path(source, p.0@, p.1) == path_of(source, p.0@, p.1));
        assert forall|m: int| #![trigger program_listing(source, programs)[m]] 0 <= m < program_listing(source, programs).len() implies offered_by(source, programs, program_listing(source, programs)[m]) by {
            if m < first.len() {
                assert(l[m] == first[m]);
                assert(l[m] == (programs[0].1.commands@[m]@, path_of(source, programs[0].0@, programs[0].1)));
                assert(offered_at(source, programs, l[m], 0, m));
            } else {
                assert(l[m] == lr[m - first.len()]);
                assert(offered_by(source, rest, lr[m - first.len()]));
                let (j, k) = choose|j: int, k: int| #[trigger] offered_at(source, rest, lr[m - first.len()], j, k);
                assert(programs[j + 1] == rest[j]);
                assert(offered_at(source, programs, l[m], j + 1, k));
            }
        }
        assert forall|j: int, k: int|
            0 <= j < programs.len() && 0 <= k < programs[j].1.commands@.len() implies l.contains(
            (#[trigger] programs[j].1.commands@[k]@, path_of(source, programs[j].0@, programs[j].1)),
        ) by {
            if j == 0 {
                assert(l[k] == first[k]);
            } else {
                assert(programs[j] == rest[j - 1]);
                let pair = (programs[j].1.commands@[k]@, path_of(source, programs[j].0@, programs[j].1));
                assert(lr.contains(pair));
                let m = choose|m: int| 0 <= m < lr.len() && lr[m] == pair;
                assert(l[first.len() + m] == pair);
            }
        }
    } else {
        assert(program_listing(source, programs) =~= Seq::<(Seq<char>, Seq<char>)>::empty());
    }
}

/// `list` shows exactly what the sources offer: every pair it shows is a
/// command of some program with that program's image path, and every
/// command of every program is shown with its image path.
pub proof fn listing_is_what_the_sources_offer(sources: Seq<Source>)
    ensures
        forall|m: int|
            #![trigger source_listing(sources)[m]]
            0 <= m < source_listing(sources).len() ==> offered_in(sources, source_listing(sources)[m]),
        forall|i: int, j: int, k: int|
            0 <= i < sources.len() && 0 <= j < sources[i].programs@.len() && 0 <= k
                < sources[i].programs@[j].1.commands@.len() ==> source_listing(sources).contains(
                (
                    #[trigger] sources[i].programs@[j].1.commands@[k]@,
                    path_of(sources[i].name@, sources[i].programs@[j].0@, sources[i].programs@[j].1),
                ),
            ),
    decreases sources.len(),
{
    if sources.len() > 0 {
        let s0 = sources[0];
        let rest = sources.drop_first();
        lemma_program_listing(s0.name@, s0.programs@);
        listing_is_what_the_sources_offer(rest);
        let first = program_listing(s0.name@, s0.programs@);
        let lr = source_listing(rest);
        let l = source_listing(sources);
        assert(l == first + lr);
        assert forall|m: int| #![trigger source_listing(sources)[m]] 0 <= m < source_listing(sources).len() implies offered_in(sources, source_listing(sources)[m]) by {
            if m < first.len() {
                assert(l[m] == first[m]);
                assert(offered_by(s0.name@, s0.programs@, first[m]));
                let (j, k) = choose|j: int, k: int| #[trigger] offered_at(s0.name@, s0.programs@, first[m], j, k);
                assert(listed_at(sources, l[m], 0, j, k));
            } else {
                assert(l[m] == lr[m - first.len()]);
                assert(offered_in(rest, lr[m - first.len()]));
                let (i, j, k) = choose|i: int, j: int, k: int| #[trigger] listed_at(rest, lr[m - first.len()], i, j, k);
                assert(sources[i + 1] == rest[i]);
                assert(listed_at(sources, l[m], i + 1, j, k));
            }
        }
        assert forall|i: int, j: int, k: int|
            0 <= i < sources.len() && 0 <= j < sources[i].programs@.len() && 0 <= k
                < sources[i].programs@[j].1.commands@.len() implies l.contains(
            (
                #[trigger] sources[i].programs@[j].1.commands@[k]@,
                path_of(sources[i].name@, sources[i].programs@[j].0@, sources[i].programs@[j].1),
            ),
        ) by {
            let pair = (
                sources[i].programs@[j].1.commands@[k]@,
                path_of(sources[i].name@, sources[i].programs@[j].0@, sources[i].programs@[j].1),
            );
            if i == 0 {
                assert(pair.0 == s0.programs@[j].1.commands@[k]@);
                assert(first.contains(pair));
                let m = choose|m: int| 0 <= m < first.len() && first[m] == pair;
                assert(l[m] == pair);
            } else {
                assert(sources[i] == rest[i - 1]);
                assert(pair.0 == rest[i - 1].programs@[j].1.commands@[k]@);
                assert(lr.contains(pair));
                let m = choose|m: int| 0 <= m < lr.len() && lr[m] == pair;
                assert(l[first.len() + m] == pair);
            }
        }
    }
}

} // verus!
