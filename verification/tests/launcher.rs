use backend_supervisor::launcher::{launch_command, BuildMode, LaunchCommand, ProcessHandle};
use backend_supervisor::signature::{BackendSignature, RunningProcessView};

fn view_of(pid: u32, command: &LaunchCommand) -> RunningProcessView {
    let mut command_vector = vec![command.executable.clone()];
    command_vector.extend(command.args.iter().cloned());
    RunningProcessView { pid, command_vector }
}

#[test]
fn development_runs_the_backend_through_the_interpreter() {
    let command = launch_command(BuildMode::Development);
    assert_eq!(command.executable, "python");
    assert_eq!(command.args, vec!["../backend.py".to_string()]);
}

#[test]
fn release_runs_the_packaged_binary_without_arguments() {
    let command = launch_command(BuildMode::Release);
    assert_eq!(command.executable, "./resources/neuronbox-backend");
    assert_eq!(command.args, Vec::<String>::new());
}

#[test]
fn signature_of_each_mode_comes_from_its_command() {
    assert_eq!(
        BackendSignature::for_mode(BuildMode::Development),
        BackendSignature {
            executable_basename: "python".to_string(),
            trailing_args: vec!["../backend.py".to_string()],
        }
    );
    assert_eq!(
        BackendSignature::for_mode(BuildMode::Release),
        BackendSignature {
            executable_basename: "neuronbox-backend".to_string(),
            trailing_args: vec![],
        }
    );
}

#[test]
fn signature_of_a_command_keeps_all_arguments() {
    let command = LaunchCommand {
        executable: "/opt/tools/Server".to_string(),
        args: vec!["--port".to_string(), "8000".to_string()],
    };
    assert_eq!(
        BackendSignature::of_command(command),
        BackendSignature {
            executable_basename: "Server".to_string(),
            trailing_args: vec!["--port".to_string(), "8000".to_string()],
        }
    );
}

#[test]
fn started_backend_is_recognised_by_the_signature_of_its_mode() {
    for mode in [BuildMode::Development, BuildMode::Release] {
        let signature = BackendSignature::for_mode(mode);
        let view = view_of(4711, &launch_command(mode));
        assert!(backend_supervisor::matcher::matches(&signature, &view), "{:?}", mode);
    }
}

#[test]
fn handle_keeps_the_pid_it_was_made_with() {
    assert_eq!(ProcessHandle::new(0).pid(), 0);
    assert_eq!(ProcessHandle::new(31337).pid(), 31337);
    assert_eq!(ProcessHandle::new(u32::MAX).pid(), u32::MAX);
}
