use backend_supervisor::matcher::{ends_with_args, invoked_binary, matches_folded};
use backend_supervisor::path::basename;
use backend_supervisor::signature::{BackendSignature, RunningProcessView};

fn strings(items: &[&str]) -> Vec<String> {
    items.iter().map(|item| item.to_string()).collect()
}

fn development() -> BackendSignature {
    BackendSignature {
        executable_basename: "python".to_string(),
        trailing_args: strings(&["../backend.py"]),
    }
}

fn process(pid: u32, command_vector: &[&str]) -> RunningProcessView {
    RunningProcessView { pid, command_vector: strings(command_vector) }
}

fn is_match(signature: &BackendSignature, command_vector: &[&str]) -> bool {
    backend_supervisor::matcher::matches(signature, &process(7, command_vector))
}

#[test]
fn interpreter_running_the_backend_matches() {
    assert!(is_match(&development(), &["python", "../backend.py"]));
    assert!(is_match(&development(), &["/usr/bin/python", "../backend.py"]));
}

#[test]
fn binary_name_is_compared_without_regard_to_case() {
    assert!(is_match(&development(), &["/opt/Python", "../backend.py"]));
    assert!(is_match(&development(), &["PYTHON", "../backend.py"]));
}

#[test]
fn signature_name_is_compared_without_regard_to_case() {
    let signature = BackendSignature {
        executable_basename: "Python".to_string(),
        trailing_args: strings(&["../backend.py"]),
    };
    assert!(is_match(&signature, &["python", "../backend.py"]));
    assert!(is_match(&signature, &["/usr/bin/PYTHON", "../backend.py"]));
}

#[test]
fn other_binary_does_not_match() {
    assert!(!is_match(&development(), &["python3", "../backend.py"]));
    assert!(!is_match(&development(), &["/usr/bin/ruby", "../backend.py"]));
    assert!(!is_match(&development(), &["python/", "../backend.py"]));
}

#[test]
fn same_interpreter_with_other_script_does_not_match() {
    assert!(!is_match(&development(), &["python", "other_script.py"]));
    assert!(!is_match(&development(), &["python", "../Backend.py"]));
    assert!(!is_match(&development(), &["python"]));
}

#[test]
fn arguments_must_stand_at_the_end() {
    assert!(is_match(&development(), &["python", "-u", "../backend.py"]));
    assert!(!is_match(&development(), &["python", "../backend.py", "--verbose"]));
}

#[test]
fn command_vector_shorter_than_the_arguments_does_not_match() {
    let signature = BackendSignature {
        executable_basename: "python".to_string(),
        trailing_args: strings(&["python", "-m", "backend"]),
    };
    assert!(!is_match(&signature, &["python", "backend"]));
    assert!(is_match(&signature, &["python", "-m", "backend"]));
}

#[test]
fn empty_command_vector_has_the_empty_name() {
    assert!(!is_match(&development(), &[]));
    let nameless = BackendSignature { executable_basename: String::new(), trailing_args: vec![] };
    assert!(is_match(&nameless, &[]));
    assert!(is_match(&nameless, &["/usr/bin/"]));
}

#[test]
fn signature_without_arguments_goes_by_the_name_alone() {
    let signature = BackendSignature {
        executable_basename: "neuronbox-backend".to_string(),
        trailing_args: vec![],
    };
    assert!(is_match(&signature, &["./resources/neuronbox-backend"]));
    assert!(is_match(&signature, &["/opt/app/resources/NeuronBox-Backend", "--port", "8000"]));
    assert!(!is_match(&signature, &["./resources/neuronbox"]));
}

#[test]
fn changing_any_one_trailing_argument_of_the_process_breaks_the_match() {
    let signature = BackendSignature {
        executable_basename: "python".to_string(),
        trailing_args: strings(&["-m", "backend", "--serve"]),
    };
    let matching = ["python", "-m", "backend", "--serve"];
    assert!(is_match(&signature, &matching));
    for position in 1..matching.len() {
        let mut changed = matching;
        changed[position] = "changed";
        assert!(!is_match(&signature, &changed), "position {}", position);
    }
}

#[test]
fn changing_any_one_argument_of_the_signature_breaks_the_match() {
    let arguments = ["-m", "backend", "--serve"];
    let command_vector = ["python", "-m", "backend", "--serve"];
    for position in 0..arguments.len() {
        let mut changed = arguments;
        changed[position] = "changed";
        let signature = BackendSignature {
            executable_basename: "python".to_string(),
            trailing_args: strings(&changed),
        };
        assert!(!is_match(&signature, &command_vector), "position {}", position);
    }
}

#[test]
fn arguments_that_reach_the_binary_itself_are_compared_in_full() {
    let signature = BackendSignature {
        executable_basename: "python".to_string(),
        trailing_args: strings(&["python", "../backend.py"]),
    };
    assert!(is_match(&signature, &["python", "../backend.py"]));
    assert!(!is_match(&signature, &["/usr/bin/python", "../backend.py"]));
}

#[test]
fn folded_names_decide_before_the_arguments() {
    let command_vector = strings(&["python", "../backend.py"]);
    let arguments = strings(&["../backend.py"]);
    let python = "python".to_string();
    assert!(matches_folded(&python, &python.clone(), &command_vector, &arguments));
    assert!(!matches_folded(&"Python".to_string(), &python, &command_vector, &arguments));
    assert!(!matches_folded(&python, &"python3".to_string(), &command_vector, &arguments));
    assert!(!matches_folded(&python, &python.clone(), &command_vector, &strings(&["x"])));
    assert!(matches_folded(&String::new(), &String::new(), &vec![], &vec![]));
}

#[test]
fn ends_with_args_compares_the_tail_element_by_element() {
    let command_vector = strings(&["a", "b", "c"]);
    assert!(ends_with_args(&command_vector, &strings(&[])));
    assert!(ends_with_args(&command_vector, &strings(&["c"])));
    assert!(ends_with_args(&command_vector, &strings(&["b", "c"])));
    assert!(ends_with_args(&command_vector, &strings(&["a", "b", "c"])));
    assert!(!ends_with_args(&command_vector, &strings(&["b"])));
    assert!(!ends_with_args(&command_vector, &strings(&["a", "c"])));
    assert!(!ends_with_args(&command_vector, &strings(&["x", "a", "b", "c"])));
    assert!(ends_with_args(&strings(&[]), &strings(&[])));
    assert!(!ends_with_args(&strings(&[]), &strings(&["a"])));
}

#[test]
fn invoked_binary_is_the_final_segment_of_the_first_element() {
    assert_eq!(invoked_binary(&strings(&["/usr/bin/python", "x/y"])), "python");
    assert_eq!(invoked_binary(&strings(&["python"])), "python");
    assert_eq!(invoked_binary(&strings(&[])), "");
}

#[test]
fn basename_is_what_follows_the_last_slash() {
    assert_eq!(basename("/usr/local/bin/python"), "python");
    assert_eq!(basename("./resources/neuronbox-backend"), "neuronbox-backend");
    assert_eq!(basename("python"), "python");
    assert_eq!(basename("relative/dir/"), "");
    assert_eq!(basename("/"), "");
    assert_eq!(basename(""), "");
    assert_eq!(basename("a//b"), "b");
    assert_eq!(basename("C:\\tools\\python.exe"), "C:\\tools\\python.exe");
}

#[test]
fn basename_counts_characters_not_bytes() {
    assert_eq!(basename("/données/café/serveur"), "serveur");
    assert_eq!(basename("/opt/日本語/バックエンド"), "バックエンド");
    assert_eq!(basename("übung"), "übung");
}
