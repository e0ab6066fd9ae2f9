//! The loader of shader sources.
//!
//! Loading a source takes two steps around one run of the compiler. `plan`
//! says which command compiles the source. Once that command has been run,
//! `finish` turns what the run reported into the marker of the compiled
//! shader, or into the failure of the load.

use vstd::prelude::*;
use vstd::string::StringExecFns;
use crate::command::{compiler_args, compiler_arguments, texts, COMPILER};
use crate::path::{binary_of, on_disk, on_disk_path, output_path};

verus! {

/// The settings of one load: the profile to compile under.
#[derive(Clone, Debug, PartialEq, Eq)]
pub struct SlangSettings {
    /// The compilation profile, such as `sm_6_0` or `ps_6_0`.
    pub profile: String,
}

impl SlangSettings {
    /// Settings that ask for `profile`.
    pub fn new(profile: &str) -> (settings: Self)
        ensures
            settings.profile@ == profile@,
    {
        SlangSettings { profile: profile.to_owned() }
    }
}

impl Default for SlangSettings {
    /// Settings with the empty profile.
    fn default() -> (settings: Self)
        ensures
            settings.profile@ == Seq::<char>::empty(),
    {
        SlangSettings { profile: String::new() }
    }
}

/// The marker of a compiled shader. It records where the binary was written,
/// and holds nothing of the binary itself.
#[derive(Clone, Debug, PartialEq, Eq)]
pub struct SlangShader {
    output: String,
}

impl View for SlangShader {
    type V = Seq<char>;

    /// The path of the binary.
    closed spec fn view(&self) -> Seq<char> {
        self.output@
    }
}

impl SlangShader {
    /// The path of the binary.
    pub fn output_path(&self) -> (path: &str)
        ensures
            path@ == self@,
    {
        self.output.as_str()
    }
}

/// One run of the compiler: the executable, its arguments in order, and the
/// path that it writes the binary to.
#[derive(Clone, Debug, PartialEq, Eq)]
pub struct Compilation {
    /// The name of the executable.
    pub program: String,
    /// The arguments, in the order in which the compiler receives them.
    pub arguments: Vec<String>,
    /// The path of the binary that the run writes.
    pub output: String,
}

/// What a run of the compiler reported.
#[derive(Clone, Debug, PartialEq, Eq)]
pub enum Outcome {
    /// The compiler could not be started.
    NotStarted,
    /// The compiler ran to its end.
    Exited {
        /// Whether its exit status was zero.
        success: bool,
        /// What it wrote to standard error.
        stderr: Vec<u8>,
    },
}

/// What becomes of a load whose compiler run left a diagnostic.
#[derive(Clone, Copy, Debug, PartialEq, Eq, Structural)]
pub enum Severity {
    /// The diagnostic is handed on with the marker, and the load succeeds.
    Lenient,
    /// The load fails with the diagnostic.
    Strict,
}

/// Why a load failed.
#[derive(Clone, Debug, PartialEq, Eq)]
pub enum LoadError {
    /// The compiler could not be started.
    NotStarted,
    /// The compiler left a diagnostic, and the loader is strict.
    Rejected {
        /// What the compiler wrote to standard error.
        diagnostic: Vec<u8>,
    },
}

/// A load that succeeded.
#[derive(Clone, Debug, PartialEq, Eq)]
pub struct Loaded {
    /// The marker of the compiled shader.
    pub marker: SlangShader,
    /// What the compiler wrote to standard error, where its run left a
    /// diagnostic.
    pub diagnostic: Option<Vec<u8>>,
}

/// A run leaves a diagnostic where the compiler exits with a status other
/// than zero, or writes more than one byte to standard error. A single byte,
/// such as a line end, is not taken for one.
pub open spec fn leaves_diagnostic(success: bool, stderr: Seq<u8>) -> bool {
    !success || stderr.len() > 1
}

/// `end` is the success of a load with the marker for `output` and with
/// `diagnostic`.
pub open spec fn succeeds(
    end: Result<Loaded, LoadError>,
    output: Seq<char>,
    diagnostic: Option<Seq<u8>>,
) -> bool {
    &&& end is Ok
    &&& end->Ok_0.marker@ == output
    &&& match diagnostic {
        Some(bytes) => end->Ok_0.diagnostic is Some && end->Ok_0.diagnostic->0@ == bytes,
        None => end->Ok_0.diagnostic is None,
    }
}

/// `end` is how a load with a loader of the given severity ends, where its
/// compiler run was to write `output` and reported `outcome`.
pub open spec fn ends(
    end: Result<Loaded, LoadError>,
    severity: Severity,
    output: Seq<char>,
    outcome: Outcome,
) -> bool {
    match outcome {
        Outcome::NotStarted => end is Err && end->Err_0 is NotStarted,
        Outcome::Exited { success, stderr } => if !leaves_diagnostic(success, stderr@) {
            succeeds(end, output, None)
        } else if severity == Severity::Strict {
            &&& end is Err
            &&& end->Err_0 is Rejected
            &&& end->Err_0->diagnostic@ == stderr@
        } else {
            succeeds(end, output, Some(stderr@))
        },
    }
}

/// The loader.
#[derive(Clone, Copy, Debug)]
pub struct SlangLoader {
    /// What becomes of a load whose compiler run left a diagnostic.
    pub severity: Severity,
}

impl Default for SlangLoader {
    /// The lenient loader.
    fn default() -> (loader: Self)
        ensures
            loader.severity == Severity::Lenient,
    {
        SlangLoader { severity: Severity::Lenient }
    }
}

impl SlangLoader {
    /// The run of the compiler that loads the source at `asset_path` under
    /// `settings`: the source is the file on disk for that path, the output
    /// is that file's path with the binary extension.
    pub fn plan(&self, asset_path: &str, settings: &SlangSettings) -> (run: Compilation)
        ensures
            run.program@ == COMPILER@,
            run.output@ == binary_of(on_disk(asset_path@)),
            texts(run.arguments@) == compiler_arguments(
                on_disk(asset_path@),
                binary_of(on_disk(asset_path@)),
                settings.profile@,
            ),
    {
        let source = on_disk_path(asset_path);
        let output = output_path(source.as_str());
        let arguments = compiler_args(source.as_str(), output.as_str(), settings.profile.as_str());
        Compilation { program: String::from_str(COMPILER), arguments, output }
    }

    /// The end of a load, given what the run of its compiler reported.
    ///
    /// The load fails where the compiler could not be started, and, with a
    /// strict loader, where the run left a diagnostic. Otherwise it succeeds
    /// with the marker for `run.output`, whether or not the binary was
    /// written; a diagnostic that the run left comes with it.
    pub fn finish(&self, run: &Compilation, outcome: Outcome) -> (end: Result<Loaded, LoadError>)
        ensures
            ends(end, self.severity, run.output@, outcome),
    {
        match outcome {
            Outcome::NotStarted => Err(LoadError::NotStarted),
            Outcome::Exited { success, stderr } => {
                let noisy = !success || stderr.len() > 1;
                if !noisy {
                    Ok(Loaded { marker: SlangShader { output: run.output.clone() }, diagnostic: None })
                } else {
                    match self.severity {
                        Severity::Strict => Err(LoadError::Rejected { diagnostic: stderr }),
                        Severity::Lenient => Ok(
                            Loaded {
                                marker: SlangShader { output: run.output.clone() },
                                diagnostic: Some(stderr),
                            },
                        ),
                    }
                }
            },
        }
    }
}

} // verus!
