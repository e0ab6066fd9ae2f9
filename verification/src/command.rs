//! Construction of the compiler's argument list.
//!
//! The compiler is invoked as
//! `slangc <source> -profile <profile> -o <output> -fvk-use-gl-layout`
//! followed by `-entry <name> -fvk-use-entrypoint-name` for the fragment and
//! vertex stages, or by `-stage compute` for the compute stage.

use vstd::prelude::*;
use crate::profile::{classify, entry_point_of, stage_of, Stage, FRAGMENT_MARKER, VERTEX_MARKER};
use crate::text::contains_token;

verus! {

/// The name of the compiler executable.
pub const COMPILER: &'static str = "slangc";

/// The arguments that depend on the stage alone; they close the list. A
/// stage with an entry point names it, and has the compiler keep that name; a
/// stage without one is selected as the compute stage.
pub open spec fn stage_arguments(stage: Stage) -> Seq<Seq<char>> {
    match entry_point_of(stage) {
        Some(name) => seq!["-entry"@, name, "-fvk-use-entrypoint-name"@],
        None => seq!["-stage"@, "compute"@],
    }
}

/// The whole argument list for one compilation, in the order in which the
/// compiler receives it.
pub open spec fn compiler_arguments(
    source: Seq<char>,
    output: Seq<char>,
    profile: Seq<char>,
) -> Seq<Seq<char>> {
    seq![source, "-profile"@, profile, "-o"@, output, "-fvk-use-gl-layout"@] + stage_arguments(
        stage_of(profile),
    )
}

/// The texts of a list of strings.
pub open spec fn texts(args: Seq<String>) -> Seq<Seq<char>> {
    args.map_values(|arg: String| arg@)
}

/// Builds the argument list for compiling `source` to `output` under
/// `profile`.
pub fn compiler_args(source: &str, output: &str, profile: &str) -> (args: Vec<String>)
    ensures
        texts(args@) == compiler_arguments(source@, output@, profile@),
{
    let mut args: Vec<String> = Vec::new();
    args.push(source.to_owned());
    args.push("-profile".to_owned());
    args.push(profile.to_owned());
    args.push("-o".to_owned());
    args.push(output.to_owned());
    args.push("-fvk-use-gl-layout".to_owned());
    match classify(profile).entry_point() {
        Some(name) => {
            args.push("-entry".to_owned());
            args.push(name.to_owned());
            args.push("-fvk-use-entrypoint-name".to_owned());
        },
        None => {
            args.push("-stage".to_owned());
            args.push("compute".to_owned());
        },
    }
    args
}

/// `flag` stands in `args` and `value` directly follows it.
pub open spec fn has_flag(args: Seq<Seq<char>>, flag: Seq<char>, value: Seq<char>) -> bool {
    exists|i: int|
        0 <= i && i + 1 < args.len() && #[trigger] args[i] == flag && args[i + 1] == value
}

/// What the compiler's flags and their fixed values are, letter by letter.
proof fn lemma_flag_texts()
    ensures
        "-profile"@ == seq!['-', 'p', 'r', 'o', 'f', 'i', 'l', 'e'],
        "-o"@ == seq!['-', 'o'],
        "-fvk-use-gl-layout"@.len() == 18,
        "-fvk-use-gl-layout"@[1] == 'f',
        "-entry"@ == seq!['-', 'e', 'n', 't', 'r', 'y'],
        "-stage"@ == seq!['-', 's', 't', 'a', 'g', 'e'],
        "fragment"@.len() == 8,
        "fragment"@[0] == 'f',
        "vertex"@.len() == 6,
        "vertex"@[0] == 'v',
        "compute"@.len() == 7,
        "compute"@[0] == 'c',
        "-fvk-use-entrypoint-name"@.len() == 24,
        "-fvk-use-entrypoint-name"@[1] == 'f',
{
    reveal_strlit("-profile");
    reveal_strlit("-o");
    reveal_strlit("-fvk-use-gl-layout");
    reveal_strlit("-entry");
    reveal_strlit("-stage");
    reveal_strlit("fragment");
    reveal_strlit("vertex");
    reveal_strlit("compute");
    reveal_strlit("-fvk-use-entrypoint-name");
}

/// For a profile that holds the fragment marker, the arguments hold
/// `-entry fragment` and `-fvk-use-entrypoint-name`, and nowhere
/// `-stage compute`.
pub proof fn lemma_fragment_arguments(source: Seq<char>, output: Seq<char>, profile: Seq<char>)
    requires
        contains_token(profile, FRAGMENT_MARKER@),
    ensures
        has_flag(compiler_arguments(source, output, profile), "-entry"@, "fragment"@),
        compiler_arguments(source, output, profile).contains("-fvk-use-entrypoint-name"@),
        !has_flag(compiler_arguments(source, output, profile), "-stage"@, "compute"@),
{
    let args = compiler_arguments(source, output, profile);
    lemma_flag_texts();
    assert(args[6] == "-entry"@ && args[7] == "fragment"@);
    assert(args[8] == "-fvk-use-entrypoint-name"@);
    assert forall|i: int| 0 <= i && i + 1 < args.len() implies !(#[trigger] args[i] == "-stage"@
        && args[i + 1] == "compute"@) by {}
}

/// For a profile that holds the vertex marker and not the fragment marker,
/// the arguments hold `-entry vertex` and `-fvk-use-entrypoint-name`, and
/// nowhere `-stage compute`.
pub proof fn lemma_vertex_arguments(source: Seq<char>, output: Seq<char>, profile: Seq<char>)
    requires
        contains_token(profile, VERTEX_MARKER@),
        !contains_token(profile, FRAGMENT_MARKER@),
    ensures
        has_flag(compiler_arguments(source, output, profile), "-entry"@, "vertex"@),
        compiler_arguments(source, output, profile).contains("-fvk-use-entrypoint-name"@),
        !has_flag(compiler_arguments(source, output, profile), "-stage"@, "compute"@),
{
    let args = compiler_arguments(source, output, profile);
    lemma_flag_texts();
    assert(args[6] == "-entry"@ && args[7] == "vertex"@);
    assert(args[8] == "-fvk-use-entrypoint-name"@);
    assert forall|i: int| 0 <= i && i + 1 < args.len() implies !(#[trigger] args[i] == "-stage"@
        && args[i + 1] == "compute"@) by {}
}

/// For a profile that holds neither marker, the arguments hold
/// `-stage compute`, and no argument is `-entry` unless the source path, the
/// output path or the profile is itself that text.
pub proof fn lemma_compute_arguments(source: Seq<char>, output: Seq<char>, profile: Seq<char>)
    requires
        !contains_token(profile, FRAGMENT_MARKER@),
        !contains_token(profile, VERTEX_MARKER@),
        source != "-entry"@,
        output != "-entry"@,
        profile != "-entry"@,
    ensures
        has_flag(compiler_arguments(source, output, profile), "-stage"@, "compute"@),
        !compiler_arguments(source, output, profile).contains("-entry"@),
{
    let args = compiler_arguments(source, output, profile);
    lemma_flag_texts();
    assert(args[6] == "-stage"@ && args[7] == "compute"@);
    assert forall|i: int| 0 <= i < args.len() implies args[i] != "-entry"@ by {}
}

} // verus!
