//! Starting the backend: the command line for each build mode and the
//! handle to the process once it runs.

use vstd::prelude::*;

verus! {

/// The build configuration the shell was compiled for. It never changes
/// while the shell runs.
#[derive(Clone, Copy, Debug, PartialEq, Eq, Structural)]
pub enum BuildMode {
    /// The backend runs from source through an interpreter.
    Development,
    /// The backend is a packaged standalone executable.
    Release,
}

/// Mathematical model of a command line: the program and its arguments.
pub struct CommandSpec {
    pub executable: Seq<char>,
    pub args: Seq<Seq<char>>,
}

/// A program to spawn together with its arguments.
#[derive(Debug)]
pub struct LaunchCommand {
    pub executable: String,
    pub args: Vec<String>,
}

impl View for LaunchCommand {
    type V = CommandSpec;

    open spec fn view(&self) -> CommandSpec {
        CommandSpec { executable: self.executable@, args: self.args.deep_view() }
    }
}

/// The command line that starts the backend in `mode`. The packaged path is
/// fixed by the packaging step and never derived at run time.
pub open spec fn launch_command_of(mode: BuildMode) -> CommandSpec {
    match mode {
        BuildMode::Development => CommandSpec {
            executable: "python"@,
            args: seq!["../backend.py"@],
        },
        BuildMode::Release => CommandSpec {
            executable: "./resources/neuronbox-backend"@,
            args: Seq::empty(),
        },
    }
}

/// Resolves the command line that starts the backend in `mode`.
pub fn launch_command(mode: BuildMode) -> (command: LaunchCommand)
    ensures
        command@ == launch_command_of(mode),
{
    match mode {
        BuildMode::Development => {
            let mut args: Vec<String> = Vec::new();
            args.push("../backend.py".to_owned());
            let command = LaunchCommand { executable: "python".to_owned(), args };
            assert(command@.args =~= seq!["../backend.py"@]);
            command
        },
        BuildMode::Release => {
            let command = LaunchCommand {
                executable: "./resources/neuronbox-backend".to_owned(),
                args: Vec::new(),
            };
            assert(command@.args =~= Seq::empty());
            command
        },
    }
}

/// The backend process once it has been started. The handle stays valid
/// when the process exits: whether it still runs is asked of the operating
/// system each time, never stored. It cannot be copied, so that exactly one
/// owner can ever act on the process.
#[derive(Debug)]
pub struct ProcessHandle {
    pid: u32,
}

impl View for ProcessHandle {
    type V = u32;

    closed spec fn view(&self) -> u32 {
        self.pid
    }
}

impl ProcessHandle {
    /// The handle to the started process `pid`.
    pub fn new(pid: u32) -> (handle: ProcessHandle)
        ensures
            handle@ == pid,
    {
        ProcessHandle { pid }
    }

    /// The pid the operating system gave the process.
    pub fn pid(&self) -> (pid: u32)
        ensures
            pid == self@,
    {
        self.pid
    }
}

} // verus!
