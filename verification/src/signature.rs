//! What identifies the backend among the processes of the machine.

use vstd::prelude::*;
use crate::launcher::{launch_command, launch_command_of, BuildMode, CommandSpec, LaunchCommand};
use crate::path::{basename, final_segment};

verus! {

/// Mathematical model of a [`BackendSignature`].
pub struct SignatureSpec {
    pub executable_basename: Seq<char>,
    pub trailing_args: Seq<Seq<char>>,
}

/// The name of the backend's binary and the arguments its command line ends
/// with. The same signature starts the backend and recognises an instance
/// that is already running.
#[derive(Clone, Debug, PartialEq, Eq)]
pub struct BackendSignature {
    pub executable_basename: String,
    pub trailing_args: Vec<String>,
}

impl View for BackendSignature {
    type V = SignatureSpec;

    open spec fn view(&self) -> SignatureSpec {
        SignatureSpec {
            executable_basename: self.executable_basename@,
            trailing_args: self.trailing_args.deep_view(),
        }
    }
}

/// Mathematical model of a [`RunningProcessView`].
pub struct ProcessSpec {
    pub pid: u32,
    pub command_vector: Seq<Seq<char>>,
}

/// One entry of the operating system's process table as it stood when the
/// table was read. It is never updated: a later scan reads the table anew.
#[derive(Clone, Debug, PartialEq, Eq)]
pub struct RunningProcessView {
    pub pid: u32,
    pub command_vector: Vec<String>,
}

impl View for RunningProcessView {
    type V = ProcessSpec;

    open spec fn view(&self) -> ProcessSpec {
        ProcessSpec { pid: self.pid, command_vector: self.command_vector.deep_view() }
    }
}

impl DeepView for RunningProcessView {
    type V = ProcessSpec;

    open spec fn deep_view(&self) -> ProcessSpec {
        self@
    }
}

/// The signature under which a process started by `command` shows up: the
/// final segment of the program's path, followed by all of its arguments.
pub open spec fn signature_of_command(command: CommandSpec) -> SignatureSpec {
    SignatureSpec {
        executable_basename: final_segment(command.executable),
        trailing_args: command.args,
    }
}

/// The signature of the backend in `mode`.
pub open spec fn signature_of(mode: BuildMode) -> SignatureSpec {
    signature_of_command(launch_command_of(mode))
}

impl BackendSignature {
    /// Derives the signature of the process that `command` starts. The
    /// arguments move from the command into the signature.
    pub fn of_command(command: LaunchCommand) -> (signature: BackendSignature)
        ensures
            signature@ == signature_of_command(command@),
    {
        let executable_basename = basename(command.executable.as_str());
        BackendSignature { executable_basename, trailing_args: command.args }
    }

    /// The signature of the backend in `mode`.
    pub fn for_mode(mode: BuildMode) -> (signature: BackendSignature)
        ensures
            signature@ == signature_of(mode),
    {
        BackendSignature::of_command(launch_command(mode))
    }
}

/// In development the backend shows up as `python` run on `../backend.py`;
/// packaged, as `neuronbox-backend` without arguments.
pub proof fn lemma_signatures_by_mode()
    ensures
        signature_of(BuildMode::Development) == (SignatureSpec {
            executable_basename: "python"@,
            trailing_args: seq!["../backend.py"@],
        }),
        signature_of(BuildMode::Release) == (SignatureSpec {
            executable_basename: "neuronbox-backend"@,
            trailing_args: Seq::empty(),
        }),
{
    reveal_strlit("python");
    reveal_strlit("./resources/neuronbox-backend");
    reveal_strlit("./resources");
    reveal_strlit("neuronbox-backend");
    let python = "python"@;
    assert(!python.contains('/'));
    crate::path::lemma_plain_name_is_own_segment(python);
    let name = "neuronbox-backend"@;
    assert(!name.contains('/'));
    assert("./resources/neuronbox-backend"@ =~= "./resources"@ + seq!['/'] + name);
    crate::path::lemma_segment_after_directory("./resources"@, name);
}

} // verus!
